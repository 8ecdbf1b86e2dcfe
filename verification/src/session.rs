//! Session controller: the single shared recording state, its invariant,
//! and the start / stop / status transitions.  The state is generic over
//! the handle type `H` through which a stop signal is sent into the
//! pipeline, so the controller's rules are proved once for any transport.

use vstd::prelude::*;
use crate::{TARGET_CHANNELS, TARGET_SAMPLE_RATE};

verus! {

/// Smallest byte count a finalized recording can plausibly have; a file
/// below this after a stop is reported as truncated.
pub const MIN_PLAUSIBLE_FILE_BYTES: u64 = 100;

/// Every failure the recording control surface can report.
#[derive(Clone, Copy, Debug, PartialEq, Eq, Structural)]
pub enum RecorderError {
    /// A session is already active; a second start is refused.
    AlreadyRecording,
    /// No session is active; a stop is refused.
    NotRecording,
    /// No default input device exists.
    NoInputDevice,
    /// The device's native sample representation is neither 16-bit
    /// integer nor 32-bit float.
    UnsupportedFormat,
    /// The shared state lock was poisoned.
    LockFailure,
    /// The output directory or file could not be created or written.
    IoError,
    /// The finalized file is missing after a stop.
    FileNotFound,
    /// The finalized file is implausibly small after a stop.
    FileTooSmall,
}

impl RecorderError {
    /// The short human-readable description of this failure.
    pub fn message(&self) -> &'static str {
        match self {
            RecorderError::AlreadyRecording => "Already recording",
            RecorderError::NotRecording => "Not recording",
            RecorderError::NoInputDevice => "No audio input device found",
            RecorderError::UnsupportedFormat => "Unsupported sample format",
            RecorderError::LockFailure => "Failed to acquire lock",
            RecorderError::IoError => "Failed to create output directory or file",
            RecorderError::FileNotFound => "Output file not found",
            RecorderError::FileTooSmall => "Output file is too small",
        }
    }
}

/// What a successful start reports back to the caller.
#[derive(Debug)]
pub struct RecordingStartResult {
    pub output_path: String,
    pub sample_rate: u32,
    pub channels: u16,
}

/// A read-only snapshot of the session.
#[derive(Debug)]
pub struct RecordingStatus {
    pub is_recording: bool,
    pub output_path: Option<String>,
}

/// The shared recording state.  At most one session is active at a time;
/// while one is, the output path, the canonical format and the stop
/// handle are all present.
pub struct RecordingState<H> {
    pub is_recording: bool,
    pub output_path: Option<String>,
    pub sample_rate: Option<u32>,
    pub channels: Option<u16>,
    pub sample_tx: Option<H>,
}

impl<H> RecordingState<H> {
    /// The idle state value: no session, nothing retained.
    pub open spec fn idle() -> RecordingState<H> {
        RecordingState {
            is_recording: false,
            output_path: None,
            sample_rate: None,
            channels: None,
            sample_tx: None,
        }
    }

    /// The state a successful start commits: an active session holding
    /// the output path, the canonical format and the stop handle.
    pub open spec fn committed(path: String, handle: H) -> RecordingState<H> {
        RecordingState {
            is_recording: true,
            output_path: Some(path),
            sample_rate: Some(TARGET_SAMPLE_RATE),
            channels: Some(TARGET_CHANNELS),
            sample_tx: Some(handle),
        }
    }

    /// The session invariant: an active session has every field present.
    pub open spec fn wf(self) -> bool {
        self.is_recording ==> {
            &&& self.output_path is Some
            &&& self.sample_rate is Some
            &&& self.channels is Some
            &&& self.sample_tx is Some
        }
    }

    /// The idle state: nothing recorded yet, nothing retained.
    pub fn new() -> (s: RecordingState<H>)
        ensures
            s == RecordingState::<H>::idle(),
            s.wf(),
            !s.is_recording,
            s.output_path is None,
            s.sample_rate is None,
            s.channels is None,
            s.sample_tx is None,
    {
        RecordingState {
            is_recording: false,
            output_path: None,
            sample_rate: None,
            channels: None,
            sample_tx: None,
        }
    }

    /// Commits a new session, exactly when none is active: records the
    /// output path, the canonical format and the stop handle, and reports
    /// them back.  A start during an active session fails with
    /// `AlreadyRecording` and changes nothing.
    pub fn start_session(&mut self, path: String, handle: H) -> (r: Result<
        RecordingStartResult,
        RecorderError,
    >)
        ensures
            old(self).is_recording ==> {
                &&& r == Err::<RecordingStartResult, RecorderError>(
                    RecorderError::AlreadyRecording)
                &&& *final(self) == *old(self)
            },
            !old(self).is_recording ==> {
                &&& *final(self) == RecordingState::<H>::committed(path, handle)
                &&& final(self).is_recording
                &&& final(self).wf()
                &&& r matches Ok(res) && res.output_path@ == path@
                    && res.sample_rate == TARGET_SAMPLE_RATE
                    && res.channels == TARGET_CHANNELS
            },
    {
        if self.is_recording {
            return Err(RecorderError::AlreadyRecording);
        }
        let reported = path.clone();
        self.is_recording = true;
        self.output_path = Some(path);
        self.sample_rate = Some(TARGET_SAMPLE_RATE);
        self.channels = Some(TARGET_CHANNELS);
        self.sample_tx = Some(handle);
        Ok(RecordingStartResult {
            output_path: reported,
            sample_rate: TARGET_SAMPLE_RATE,
            channels: TARGET_CHANNELS,
        })
    }

    /// Ends the active session, exactly when one is active: clears the
    /// recording flag, surrenders the stop handle to the caller and
    /// reports the output path; the path stays in the state for later
    /// status reads.  A stop with no active session fails with
    /// `NotRecording` and changes nothing.
    pub fn stop_session(&mut self) -> (r: Result<(String, H), RecorderError>)
        requires
            old(self).wf(),
        ensures
            !old(self).is_recording ==> {
                &&& r == Err::<(String, H), RecorderError>(RecorderError::NotRecording)
                &&& *final(self) == *old(self)
            },
            old(self).is_recording ==> {
                &&& r matches Ok((p, h))
                    && p@ == old(self).output_path->Some_0@
                    && Some(h) == old(self).sample_tx
                &&& !final(self).is_recording
                &&& final(self).wf()
                &&& final(self).sample_tx is None
                &&& final(self).output_path == old(self).output_path
                &&& final(self).sample_rate == old(self).sample_rate
                &&& final(self).channels == old(self).channels
            },
    {
        if !self.is_recording {
            return Err(RecorderError::NotRecording);
        }
        self.is_recording = false;
        let handle = self.sample_tx.take();
        let path = match &self.output_path {
            Some(p) => p.clone(),
            None => {
                proof {
                    assert(false);
                }
                String::new()
            },
        };
        match handle {
            Some(h) => Ok((path, h)),
            None => {
                proof {
                    assert(false);
                }
                Err(RecorderError::NotRecording)
            },
        }
    }

    /// Reconciles the state after the pipeline terminated on its own —
    /// the duration cap was reached or the encoder failed: the session
    /// auto-transitions to not-recording and the stop handle is dropped.
    pub fn auto_stop(&mut self)
        ensures
            !final(self).is_recording,
            final(self).wf(),
            final(self).sample_tx is None,
            final(self).output_path == old(self).output_path,
            final(self).sample_rate == old(self).sample_rate,
            final(self).channels == old(self).channels,
    {
        self.is_recording = false;
        self.sample_tx = None;
    }
}

/// Session exclusion law: a start succeeds exactly on an inactive state
/// and commits an active one, so of two starts in immediate succession
/// exactly the first succeeds and the second is refused with
/// `AlreadyRecording`; and the idle state is inactive, so a stop before
/// any start is refused with `NotRecording`.
pub proof fn lemma_session_exclusion<H>(path: String, handle: H)
    ensures
        RecordingState::<H>::committed(path, handle).is_recording,
        !RecordingState::<H>::idle().is_recording,
        RecordingState::<H>::idle().wf(),
{
}

/// A read-only snapshot of the session: whether it is recording and
/// where; never fails and changes nothing.
pub fn get_recording_status<H>(state: &RecordingState<H>) -> (r: RecordingStatus)
    ensures
        r.is_recording == state.is_recording,
        state.output_path is Some ==> (r.output_path matches Some(p)
            && p@ == state.output_path->Some_0@),
        state.output_path is None ==> r.output_path is None,
{
    RecordingStatus {
        is_recording: state.is_recording,
        output_path: match &state.output_path {
            Some(p) => Some(p.clone()),
            None => None,
        },
    }
}

/// Validates the finalized file after a stop, from its observed
/// existence and size: missing means `FileNotFound`, an implausibly
/// small file means `FileTooSmall`, anything else passes.
pub fn check_stopped_file(exists: bool, size_bytes: u64) -> (r: Result<(), RecorderError>)
    ensures
        !exists ==> r == Err::<(), RecorderError>(RecorderError::FileNotFound),
        exists && size_bytes < MIN_PLAUSIBLE_FILE_BYTES ==> r == Err::<(), RecorderError>(
            RecorderError::FileTooSmall),
        exists && size_bytes >= MIN_PLAUSIBLE_FILE_BYTES ==> r == Ok::<(), RecorderError>(()),
{
    if !exists {
        Err(RecorderError::FileNotFound)
    } else if size_bytes < MIN_PLAUSIBLE_FILE_BYTES {
        Err(RecorderError::FileTooSmall)
    } else {
        Ok(())
    }
}

} // verus!
