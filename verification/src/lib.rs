//! Core of a microphone capture and transcription-upload pipeline.
//!
//! The library converts interleaved device sample buffers to a normalized
//! mono stream, meters loudness with a throttled RMS window, accumulates the
//! recording, resamples it to the 16 kHz target rate, packages it as a
//! RIFF/WAVE byte sequence, and decides the two-endpoint upload protocol.
//!
//! Amplitudes are held in fixed point: a sample value `v` stands for the
//! amplitude `v / 32767`, so full scale is `-32767 ..= 32767`. Device layers
//! that deliver floating-point samples scale them by `32767` before handing
//! them in.

pub mod client;
pub mod convert;
pub mod errors;
pub mod meter;
pub mod resample;
pub mod session;
pub mod wav;

use vstd::prelude::*;

verus! {

/// The fixed sample rate of a finished recording, in Hz.
pub const TARGET_SAMPLE_RATE: u32 = 16000;

} // verus!
