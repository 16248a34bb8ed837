//! The adaptive silence detector: an exponentially weighted moving average of
//! frame energy, and a threshold just below it.
use crate::energy::{energy, frame_energy, sum_squares};
use vstd::prelude::*;

verus! {

/// The largest energy (and so the largest average) there is.
pub const MAX_ENERGY: u64 = 0x80_0000;

/// The moving average after a frame of energy `e`: a tenth of `e` plus nine
/// tenths of the previous average, rounded up to the next unit.
pub open spec fn next_average(average: nat, e: nat) -> nat {
    (e + 9 * average + 9) / 10
}

/// A frame is silence when its energy lies below nine tenths of the average
/// that already takes it into account.
pub open spec fn is_silent(e: nat, average: nat) -> bool {
    10 * e < 9 * average
}

/// The average after a run of frames, from a fresh detector.
pub open spec fn run_average(frames: Seq<Seq<i16>>) -> nat
    decreases frames.len(),
{
    if frames.len() == 0 {
        0
    } else {
        next_average(run_average(frames.drop_last()), energy(frames.last()))
    }
}

/// How a fresh detector classifies the frame at `k` of a run.
pub open spec fn silent_at(frames: Seq<Seq<i16>>, k: int) -> bool {
    is_silent(energy(frames[k]), run_average(frames.take(k + 1)))
}

/// The detector's whole state: the moving average of frame energy.
pub struct SilenceDetector {
    pub average: u64,
}

impl SilenceDetector {
    pub open spec fn wf(&self) -> bool {
        self.average <= MAX_ENERGY
    }

    /// A detector at the start of a capture session: the average is zero.
    pub fn new() -> (d: SilenceDetector)
        ensures
            d.average == 0,
            d.wf(),
    {
        SilenceDetector { average: 0 }
    }

    /// The current moving average.
    pub fn average(&self) -> (r: u64)
        ensures
            r == self.average,
    {
        self.average
    }

    /// Takes in one frame: updates the average first, then compares the
    /// frame's energy with the threshold drawn from the updated average.
    /// Returns whether the frame is silence, and the new average.
    pub fn observe(&mut self, frame: &[i16]) -> (r: (bool, u64))
        requires
            old(self).wf(),
        ensures
            final(self).wf(),
            final(self).average == next_average(old(self).average as nat, energy(frame@)),
            r.0 == is_silent(energy(frame@), final(self).average as nat),
            r.1 == final(self).average,
    {
        let e = frame_energy(frame);
        let average: u64 = (e + 9 * self.average + 9) / 10;
        self.average = average;
        (10 * e < 9 * average, average)
    }
}

proof fn lemma_zero_frame_energy(f: Seq<i16>)
    requires
        forall|i: int| 0 <= i < f.len() ==> f[i] == 0,
    ensures
        energy(f) == 0,
{
    lemma_zero_sum_squares(f);
}

proof fn lemma_zero_sum_squares(f: Seq<i16>)
    requires
        forall|i: int| 0 <= i < f.len() ==> f[i] == 0,
    ensures
        sum_squares(f) == 0,
    decreases f.len(),
{
    if f.len() > 0 {
        lemma_zero_sum_squares(f.drop_last());
    }
}

/// Frames of all-zero samples keep the average at zero, so the threshold
/// stays at zero and no such frame, the first included, is ever below it:
/// each is classified as noise.
pub proof fn lemma_zero_frames_never_silent(frames: Seq<Seq<i16>>)
    requires
        forall|k: int, i: int|
            0 <= k < frames.len() && 0 <= i < frames[k].len() ==> #[trigger] frames[k][i] == 0,
    ensures
        run_average(frames) == 0,
        forall|k: int| 0 <= k < frames.len() ==> !#[trigger] silent_at(frames, k),
    decreases frames.len(),
{
    if frames.len() > 0 {
        let prefix = frames.drop_last();
        assert forall|k: int, i: int|
            0 <= k < prefix.len() && 0 <= i < prefix[k].len() implies #[trigger] prefix[k][i]
            == 0 by {
            assert(prefix[k] == frames[k]);
        }
        lemma_zero_frames_never_silent(prefix);
        let last = frames.last();
        assert forall|i: int| 0 <= i < last.len() implies last[i] == 0 by {
            assert(frames[frames.len() - 1][i] == 0);
        }
        lemma_zero_frame_energy(last);
        assert forall|k: int| 0 <= k < frames.len() implies !#[trigger] silent_at(frames, k) by {
            if k < frames.len() - 1 {
                assert(frames.take(k + 1) =~= prefix.take(k + 1));
                assert(silent_at(prefix, k) == silent_at(frames, k));
            } else {
                assert(frames.take(k + 1) =~= frames);
            }
        }
    }
}

proof fn lemma_constant_energy_average(frames: Seq<Seq<i16>>, e: nat)
    requires
        forall|k: int| 0 <= k < frames.len() ==> energy(#[trigger] frames[k]) == e,
    ensures
        run_average(frames) <= e,
        run_average(frames) >= e || run_average(frames) >= frames.len(),
    decreases frames.len(),
{
    if frames.len() > 0 {
        let prefix = frames.drop_last();
        assert forall|k: int| 0 <= k < prefix.len() implies energy(#[trigger] prefix[k]) == e by {
            assert(prefix[k] == frames[k]);
        }
        lemma_constant_energy_average(prefix, e);
        assert(energy(frames.last()) == e);
    }
}

/// Under a signal of constant nonzero energy the moving average climbs from
/// zero to that energy, and reaches it exactly once there have been as many
/// frames as the energy's value; it never passes it, so the threshold stays
/// below the energy and every frame is classified as noise.
pub proof fn lemma_constant_energy_converges(frames: Seq<Seq<i16>>, e: nat)
    requires
        e > 0,
        forall|k: int| 0 <= k < frames.len() ==> energy(#[trigger] frames[k]) == e,
    ensures
        run_average(frames) <= e,
        frames.len() >= e ==> run_average(frames) == e,
        forall|k: int| 0 <= k < frames.len() ==> !#[trigger] silent_at(frames, k),
{
    lemma_constant_energy_average(frames, e);
    assert forall|k: int| 0 <= k < frames.len() implies !#[trigger] silent_at(frames, k) by {
        let prefix = frames.take(k + 1);
        assert forall|j: int| 0 <= j < prefix.len() implies energy(#[trigger] prefix[j]) == e by {
            assert(prefix[j] == frames[j]);
        }
        lemma_constant_energy_average(prefix, e);
        assert(prefix[k] == frames[k]);
    }
}

} // verus!
