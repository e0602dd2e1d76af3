//! Typed failures of the capture state machine and of the upload path.

use crate::client::Endpoint;
use vstd::prelude::*;

verus! {

/// Failures of `start`/`stop` and of the device layer.
#[derive(Debug)]
pub enum MicError {
    /// No input device is available.
    NoInputDevice,
    /// The device's native configuration could not be queried, or is invalid.
    ConfigError { detail: String },
    /// The device's native element type is none of the supported ones.
    UnsupportedFormat,
    /// The hardware stream failed to construct or start.
    StreamError { detail: String },
    /// `start` was called while a recording was already running.
    AlreadyRecording,
    /// `stop` was called while idle.
    NotRecording,
}

/// Failures of encoding and upload.
#[derive(Debug)]
pub enum ApiError {
    /// The audio container could not be produced.
    EncodingError,
    /// A network-level failure reaching `url`; never triggers the fallback.
    TransportError { url: String, detail: String },
    /// The server was reached and answered with a non-success status.
    ServerError { status: u16, body: String },
    /// The response of `endpoint` was not the expected JSON shape.
    InvalidResponse { endpoint: Endpoint },
}

} // verus!
