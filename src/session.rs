//! One capture session: the output choice, the device choice, and the
//! decisions taken for each frame and between frames.
use crate::detector::{is_silent, next_average, SilenceDetector};
use crate::energy::energy;
use crate::protocol::{encode_frame, encode_header, header_bytes, record_bytes};
use crate::silence::{frame_duration, next_silence, stop_due, SilenceTracker};
use vstd::prelude::*;

verus! {

/// What can end a session, each with an exit status of its own.
#[derive(Clone, Copy, Debug, PartialEq, Eq, Structural)]
pub enum RecorderError {
    /// Output options that exclude each other, or none where one is needed.
    Configuration,
    /// The capture device could not be listed, opened, started, stopped or
    /// read, or its index is out of range.
    Device,
    /// Writing the output failed.
    Io,
    /// The program's own location or the capture library could not be found.
    Environment,
}

pub open spec fn exit_status(e: RecorderError) -> i32 {
    match e {
        RecorderError::Environment => 1,
        RecorderError::Configuration => 2,
        RecorderError::Device => 3,
        RecorderError::Io => 4,
    }
}

/// The process exit status for an error.
pub fn exit_code(e: RecorderError) -> (r: i32)
    ensures
        r == exit_status(e),
{
    match e {
        RecorderError::Environment => 1,
        RecorderError::Configuration => 2,
        RecorderError::Device => 3,
        RecorderError::Io => 4,
    }
}

/// Where the frames of a session go: a WAV file, or the streaming format on a
/// byte channel. Exactly one per session.
#[derive(Clone, Copy, Debug, PartialEq, Eq, Structural)]
pub enum OutputMode {
    File,
    Stream,
}

/// Picks the output from the two options: exactly one must be given.
pub fn select_output(stream: bool, file: bool) -> (r: Result<OutputMode, RecorderError>)
    ensures
        r == if stream == file {
            Err::<OutputMode, RecorderError>(RecorderError::Configuration)
        } else if stream {
            Ok(OutputMode::Stream)
        } else {
            Ok(OutputMode::File)
        },
{
    if stream && file {
        Err(RecorderError::Configuration)
    } else if stream {
        Ok(OutputMode::Stream)
    } else if file {
        Ok(OutputMode::File)
    } else {
        Err(RecorderError::Configuration)
    }
}

/// Checks a requested device index against the number of devices found:
/// no index means the default device, and an index must name one of them.
pub fn select_device(index: Option<i32>, device_count: usize) -> (r: Result<
    Option<usize>,
    RecorderError,
>)
    ensures
        index is None ==> r == Ok::<Option<usize>, RecorderError>(None),
        index is Some && 0 <= index->0 < device_count ==> r == Ok::<
            Option<usize>,
            RecorderError,
        >(Some(index->0 as usize)),
        index is Some && !(0 <= index->0 < device_count) ==> r == Err::<
            Option<usize>,
            RecorderError,
        >(RecorderError::Device),
{
    match index {
        None => Ok(None),
        Some(i) => {
            if i >= 0 && (i as u64) < (device_count as u64) {
                Ok(Some(i as usize))
            } else {
                Err(RecorderError::Device)
            }
        },
    }
}

/// What the capture loop does next.
#[derive(Clone, Copy, Debug, PartialEq, Eq, Structural)]
pub enum LoopAction {
    /// Read the next frame and hand it to `process_frame`.
    ReadFrame,
    /// Ask the capture source to stop.
    StopSource,
    /// Leave the loop and finish the output.
    Finish,
}

/// The outcome of one frame.
pub struct FrameStep {
    pub silent: bool,
    /// The silence timeout was reached: the source is to be stopped.
    pub stop: bool,
    /// In stream mode, the frame's record to write; in file mode, nothing.
    pub record: Option<Vec<u8>>,
}

/// The state of a capture session.
pub struct CaptureSession {
    pub detector: SilenceDetector,
    pub silence: SilenceTracker,
    pub sample_rate: u32,
    pub mode: OutputMode,
    /// A stop of the source has been asked for.
    pub stop_issued: bool,
}

impl CaptureSession {
    pub open spec fn wf(&self) -> bool {
        self.detector.wf() && self.sample_rate > 0
    }

    /// A session at its start, for a source of this sample rate; a rate of
    /// zero is a device fault.
    pub fn new(sample_rate: u32, mode: OutputMode, silence_timeout_ms: u64) -> (r: Result<
        CaptureSession,
        RecorderError,
    >)
        ensures
            sample_rate == 0 <==> r is Err,
            r is Err ==> r->Err_0 == RecorderError::Device,
            r matches Ok(s) ==> s.wf() && s.detector.average == 0 && s.silence.silent_ms == 0
                && s.silence.timeout_ms == silence_timeout_ms && s.sample_rate == sample_rate
                && s.mode == mode && !s.stop_issued,
    {
        if sample_rate == 0 {
            return Err(RecorderError::Device);
        }
        Ok(
            CaptureSession {
                detector: SilenceDetector::new(),
                silence: SilenceTracker::new(silence_timeout_ms),
                sample_rate,
                mode,
                stop_issued: false,
            },
        )
    }

    /// The bytes to write before any frame: the stream header in stream
    /// mode, nothing in file mode.
    pub fn header(&self) -> (r: Option<Vec<u8>>)
        ensures
            self.mode == OutputMode::Stream ==> (r matches Some(h) && h@ == header_bytes(
                self.sample_rate,
            )),
            self.mode == OutputMode::File ==> r is None,
    {
        match self.mode {
            OutputMode::Stream => Some(encode_header(self.sample_rate)),
            OutputMode::File => None,
        }
    }

    /// The decision between frames, given whether the source still records
    /// and whether cancellation was signalled: a source that stopped ends the
    /// loop; cancellation asks the source to stop, once; otherwise the next
    /// frame is read.
    pub fn next_action(&mut self, recording: bool, cancelled: bool) -> (a: LoopAction)
        ensures
            final(self).detector == old(self).detector,
            final(self).silence == old(self).silence,
            final(self).sample_rate == old(self).sample_rate,
            final(self).mode == old(self).mode,
            a == if !recording {
                LoopAction::Finish
            } else if cancelled && !old(self).stop_issued {
                LoopAction::StopSource
            } else if cancelled {
                LoopAction::Finish
            } else {
                LoopAction::ReadFrame
            },
            final(self).stop_issued == (old(self).stop_issued || a == LoopAction::StopSource),
    {
        if !recording {
            LoopAction::Finish
        } else if cancelled && !self.stop_issued {
            self.stop_issued = true;
            LoopAction::StopSource
        } else if cancelled {
            LoopAction::Finish
        } else {
            LoopAction::ReadFrame
        }
    }

    /// Takes in one frame: classifies it, counts its silence, decides
    /// whether the silence timeout stops the session, and in stream mode
    /// encodes its record.
    pub fn process_frame(&mut self, frame: &[i16]) -> (step: FrameStep)
        requires
            old(self).wf(),
            frame@.len() <= u32::MAX,
        ensures
            final(self).wf(),
            final(self).sample_rate == old(self).sample_rate,
            final(self).mode == old(self).mode,
            final(self).silence.timeout_ms == old(self).silence.timeout_ms,
            final(self).detector.average == next_average(
                old(self).detector.average as nat,
                energy(frame@),
            ),
            step.silent == is_silent(energy(frame@), final(self).detector.average as nat),
            ({
                let d = frame_duration(frame@.len(), old(self).sample_rate as nat);
                let dur = if d <= u64::MAX {
                    d
                } else {
                    u64::MAX as nat
                };
                &&& final(self).silence.silent_ms == next_silence(
                    old(self).silence.silent_ms as nat,
                    step.silent,
                    dur,
                )
                &&& step.stop == stop_due(
                    old(self).silence.timeout_ms as nat,
                    if step.silent {
                        (old(self).silence.silent_ms + dur) as nat
                    } else {
                        0nat
                    },
                )
            }),
            final(self).stop_issued == (old(self).stop_issued || step.stop),
            old(self).mode == OutputMode::Stream ==> (step.record matches Some(b) && b@
                == record_bytes(step.silent, frame@)),
            old(self).mode == OutputMode::File ==> step.record is None,
    {
        let (silent, _average) = self.detector.observe(frame);
        let duration = crate::silence::frame_duration_ms(frame.len(), self.sample_rate);
        let stop = self.silence.record(silent, duration);
        if stop {
            self.stop_issued = true;
        }
        let record = match self.mode {
            OutputMode::Stream => Some(encode_frame(silent, frame)),
            OutputMode::File => None,
        };
        FrameStep { silent, stop, record }
    }
}

} // verus!
