//! A verified capture-to-file recording pipeline: raw device samples are
//! mixed down to mono, resampled to a canonical 48 kHz 16-bit stream,
//! framed, and persisted as a PCM container with a finalized header.

use vstd::prelude::*;

pub mod bytes;
pub mod encoder;
pub mod mix;
pub mod resample;
pub mod session;
pub mod wav;

verus! {

/// Canonical output sample rate in hertz.
pub const TARGET_SAMPLE_RATE: u32 = 48000;

/// Canonical output channel count (mono).
pub const TARGET_CHANNELS: u16 = 1;

/// Duration of one frame in milliseconds.
pub const FRAME_SIZE_MS: u32 = 20;

/// Samples per frame: 48000 samples/s * 20 ms = 960.
pub const FRAME_SIZE_SAMPLES: usize = 960;

} // verus!
