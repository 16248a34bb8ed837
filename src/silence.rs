//! Accumulated silence and the decision to stop recording after enough of it.
use vstd::prelude::*;

verus! {

/// Duration of a frame in milliseconds, truncated.
pub open spec fn frame_duration(len: nat, sample_rate: nat) -> nat
    recommends
        sample_rate > 0,
{
    1000 * len / sample_rate
}

/// `frame_duration`, saturated at the largest `u64`.
pub fn frame_duration_ms(len: usize, sample_rate: u32) -> (r: u64)
    requires
        sample_rate > 0,
    ensures
        r == if frame_duration(len as nat, sample_rate as nat) <= u64::MAX {
            frame_duration(len as nat, sample_rate as nat)
        } else {
            u64::MAX as nat
        },
{
    let ms: u128 = 1000 * (len as u128) / (sample_rate as u128);
    if ms <= u64::MAX as u128 {
        ms as u64
    } else {
        u64::MAX
    }
}

/// Silent time at the end of a run of classified frames, each given as
/// (is silence, duration in milliseconds): the durations of the silent frames
/// since the last noise frame.
pub open spec fn trailing_silence(steps: Seq<(bool, nat)>) -> nat
    decreases steps.len(),
{
    if steps.len() == 0 {
        0
    } else if steps.last().0 {
        trailing_silence(steps.drop_last()) + steps.last().1
    } else {
        0
    }
}

/// Whether silence of `silent_ms` calls for a stop under `timeout_ms`; a
/// timeout of zero turns the auto-stop off.
pub open spec fn stop_due(timeout_ms: nat, silent_ms: nat) -> bool {
    timeout_ms > 0 && silent_ms >= timeout_ms
}

/// The counter of silent time after one more frame.
pub open spec fn next_silence(silent_ms: nat, silent: bool, duration: nat) -> nat {
    if !silent {
        0
    } else if silent_ms + duration <= u64::MAX {
        silent_ms + duration
    } else {
        u64::MAX as nat
    }
}

/// The counter after a run of frames, from zero.
pub open spec fn silence_run(steps: Seq<(bool, nat)>) -> nat
    decreases steps.len(),
{
    if steps.len() == 0 {
        0
    } else {
        next_silence(silence_run(steps.drop_last()), steps.last().0, steps.last().1)
    }
}

/// Consecutive silent time of a capture session, and the silence timeout
/// after which the session stops itself (zero: never).
pub struct SilenceTracker {
    pub silent_ms: u64,
    pub timeout_ms: u64,
}

impl SilenceTracker {
    /// A tracker at the start of a session, with no silence yet.
    pub fn new(timeout_ms: u64) -> (t: SilenceTracker)
        ensures
            t.silent_ms == 0,
            t.timeout_ms == timeout_ms,
    {
        SilenceTracker { silent_ms: 0, timeout_ms }
    }

    /// The silent time counted so far.
    pub fn silent_ms(&self) -> (r: u64)
        ensures
            r == self.silent_ms,
    {
        self.silent_ms
    }

    /// Counts one classified frame: a silent one adds its duration, a noisy
    /// one resets the counter. Returns whether the session must now stop.
    pub fn record(&mut self, silent: bool, duration_ms: u64) -> (stop: bool)
        ensures
            final(self).timeout_ms == old(self).timeout_ms,
            final(self).silent_ms == next_silence(
                old(self).silent_ms as nat,
                silent,
                duration_ms as nat,
            ),
            stop == stop_due(
                old(self).timeout_ms as nat,
                if silent {
                    (old(self).silent_ms + duration_ms) as nat
                } else {
                    0nat
                },
            ),
    {
        if silent {
            self.silent_ms = self.silent_ms.saturating_add(duration_ms);
        } else {
            self.silent_ms = 0;
        }
        self.timeout_ms > 0 && self.silent_ms >= self.timeout_ms
    }
}

/// One noise frame brings the silence counter back to zero, whatever it held;
/// a silent frame never lowers it.
pub proof fn lemma_noise_resets(silent_ms: nat, silent: bool, duration: nat)
    requires
        silent_ms <= u64::MAX,
    ensures
        !silent ==> next_silence(silent_ms, silent, duration) == 0,
        silent ==> next_silence(silent_ms, silent, duration) >= silent_ms,
{
}

/// The counter holds the true trailing silence, saturated at the largest
/// `u64`.
pub proof fn lemma_silence_run(steps: Seq<(bool, nat)>)
    ensures
        silence_run(steps) == if trailing_silence(steps) <= u64::MAX {
            trailing_silence(steps)
        } else {
            u64::MAX as nat
        },
    decreases steps.len(),
{
    if steps.len() > 0 {
        lemma_silence_run(steps.drop_last());
    }
}

/// After a run of frames the session stops itself exactly when the silence
/// since the last noise frame has reached a nonzero timeout; with a timeout
/// of zero it never does.
pub proof fn lemma_auto_stop_iff_timeout_reached(steps: Seq<(bool, nat)>, timeout_ms: nat)
    requires
        timeout_ms <= u64::MAX,
    ensures
        stop_due(timeout_ms, silence_run(steps)) <==> (timeout_ms > 0 && trailing_silence(steps)
            >= timeout_ms),
        timeout_ms == 0 ==> !stop_due(timeout_ms, silence_run(steps)),
{
    lemma_silence_run(steps);
}

} // verus!
