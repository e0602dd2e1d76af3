//! The capture session state machine.
//!
//! A session is either `Idle` or `Recording`. `prepare_start` validates the
//! probed device configuration and readies the buffer; once the caller has
//! built and started the hardware stream, `confirm_start` enters `Recording`.
//! While recording, every callback delivery is handed to `ingest`, which
//! appends the mono samples to the capture buffer and feeds the level meter.
//! `stop` leaves `Recording` and returns the buffer resampled to the target
//! rate.
//!
//! The hardware stream handle itself lives with the caller; the session
//! mirrors it: a level window exists exactly while the session is recording,
//! and `ingest` on an idle session is a no-op, which absorbs a callback that
//! raced a concurrent `stop`.

use crate::convert::amps_of;
use crate::errors::MicError;
use crate::meter::{feed_step, LevelMeter, MeterModel, RMS_WINDOW};
use crate::resample::{resample_linear_i16, resampled};
use crate::TARGET_SAMPLE_RATE;
use vstd::arithmetic::div_mod::lemma_fundamental_div_mod;
use vstd::prelude::*;
use vstd::string::StringExecFns;

verus! {

/// The most samples a capture buffer may hold, so that a recording at any
/// native rate still resamples to the target rate within address space.
pub const MAX_CAPTURE_SAMPLES: usize = (usize::MAX - 16000) / 16000;

/// Native element type of the input device's samples.
#[derive(Clone, Copy, PartialEq, Eq, Structural, Debug)]
pub enum NativeFormat {
    F32,
    I16,
    U16,
    Other,
}

/// What probing the default input device found.
pub enum DeviceProbe {
    /// No input device is available.
    NoDevice,
    /// A device exists but its default configuration could not be queried.
    ConfigUnavailable { detail: String },
    /// The device's default input configuration.
    Config { sample_rate: u32, channels: u16, format: NativeFormat },
}

/// What the caller builds the hardware input stream from.
pub struct StreamSpec {
    pub sample_rate: u32,
    pub channels: u16,
    pub format: NativeFormat,
}

/// Abstract state of a capture session.
pub ghost struct SessionModel {
    pub recording: bool,
    pub buffer: Seq<i16>,
    pub input_sample_rate: u32,
    pub meter: Option<MeterModel>,
}

/// A capture session: recording flag, capture buffer, the native rate
/// recorded at start, and the level meter of the active recording.
pub struct CaptureSession {
    recording: bool,
    buffer: Vec<i16>,
    input_sample_rate: u32,
    meter: LevelMeter,
}

impl View for CaptureSession {
    type V = SessionModel;

    closed spec fn view(&self) -> SessionModel {
        SessionModel {
            recording: self.recording,
            buffer: self.buffer@,
            input_sample_rate: self.input_sample_rate,
            meter: if self.recording {
                Some(self.meter@)
            } else {
                None
            },
        }
    }
}

/// What `prepare_start` promises when the session was idle: the buffer is
/// cleared, the session stays idle, and the probe decides result and native
/// rate.
pub open spec fn prepare_start_post(
    pre: SessionModel,
    post: SessionModel,
    probe: DeviceProbe,
    r: Result<StreamSpec, MicError>,
) -> bool {
    &&& !post.recording
    &&& post.meter is None
    &&& post.buffer == Seq::<i16>::empty()
    &&& match probe {
        DeviceProbe::NoDevice => r matches Err(e) && e is NoInputDevice
            && post.input_sample_rate == pre.input_sample_rate,
        DeviceProbe::ConfigUnavailable { detail } => (r matches Err(e)
            && e matches MicError::ConfigError { detail: d } && d == detail)
            && post.input_sample_rate == pre.input_sample_rate,
        DeviceProbe::Config { sample_rate, channels, format } => {
            if sample_rate == 0 {
                r matches Err(e) && e is ConfigError && post.input_sample_rate
                    == pre.input_sample_rate
            } else if format is Other {
                r matches Err(e) && e is UnsupportedFormat && post.input_sample_rate == sample_rate
            } else if channels == 0 {
                r matches Err(e) && e is StreamError && post.input_sample_rate == sample_rate
            } else {
                r matches Ok(spec) && spec.sample_rate == sample_rate && spec.channels == channels
                    && spec.format == format && post.input_sample_rate == sample_rate
            }
        },
    }
}

impl CaptureSession {
    /// A level window exists exactly while recording and never retains a
    /// full window; the native rate is a real rate; the buffer stays small
    /// enough to resample.
    pub open spec fn inv(&self) -> bool {
        &&& (self@.meter is Some <==> self@.recording)
        &&& (self@.meter matches Some(m) ==> m.window.len() < RMS_WINDOW)
        &&& 1 <= self@.input_sample_rate
        &&& self@.buffer.len() <= MAX_CAPTURE_SAMPLES
    }

    /// A fresh idle session with an empty buffer at the target rate.
    pub fn new() -> (r: CaptureSession)
        ensures
            r.inv(),
            !r@.recording,
            r@.buffer == Seq::<i16>::empty(),
            r@.input_sample_rate == TARGET_SAMPLE_RATE,
    {
        CaptureSession {
            recording: false,
            buffer: Vec::new(),
            input_sample_rate: TARGET_SAMPLE_RATE,
            meter: LevelMeter::new(0),
        }
    }

    pub fn is_recording(&self) -> (r: bool)
        ensures
            r == self@.recording,
    {
        self.recording
    }

    /// How many samples the capture buffer currently holds.
    pub fn buffered_len(&self) -> (r: usize)
        ensures
            r == self@.buffer.len(),
    {
        self.buffer.len()
    }

    /// First half of `start`: reject a second `start` while recording, clear
    /// the buffer, validate the probed device configuration and record its
    /// native rate. On success the caller builds and starts a stream from
    /// the returned spec and then calls `confirm_start`.
    pub fn prepare_start(&mut self, probe: DeviceProbe) -> (r: Result<StreamSpec, MicError>)
        requires
            old(self).inv(),
        ensures
            final(self).inv(),
            old(self)@.recording ==> final(self)@ == old(self)@ && (r matches Err(e)
                && e is AlreadyRecording),
            !old(self)@.recording ==> prepare_start_post(old(self)@, final(self)@, probe, r),
    {
        if self.recording {
            return Err(MicError::AlreadyRecording);
        }
        self.buffer.clear();
        match probe {
            DeviceProbe::NoDevice => Err(MicError::NoInputDevice),
            DeviceProbe::ConfigUnavailable { detail } => Err(MicError::ConfigError { detail }),
            DeviceProbe::Config { sample_rate, channels, format } => {
                if sample_rate == 0 {
                    return Err(
                        MicError::ConfigError {
                            detail: String::from_str("input device reports a zero sample rate"),
                        },
                    );
                }
                self.input_sample_rate = sample_rate;
                if matches!(format, NativeFormat::Other) {
                    return Err(MicError::UnsupportedFormat);
                }
                if channels == 0 {
                    return Err(
                        MicError::StreamError {
                            detail: String::from_str("input device reports zero channels"),
                        },
                    );
                }
                Ok(StreamSpec { sample_rate, channels, format })
            },
        }
    }

    /// Second half of `start`: the hardware stream is running, enter
    /// `Recording` with a fresh level window throttled relative to `now_ms`.
    pub fn confirm_start(&mut self, now_ms: u64)
        requires
            old(self).inv(),
            !old(self)@.recording,
        ensures
            final(self).inv(),
            final(self)@.recording,
            final(self)@.buffer == old(self)@.buffer,
            final(self)@.input_sample_rate == old(self)@.input_sample_rate,
            final(self)@.meter == Some(
                MeterModel { window: Seq::<i16>::empty(), last_emit_ms: now_ms },
            ),
    {
        self.meter = LevelMeter::new(now_ms);
        self.recording = true;
    }

    /// One callback delivery of mono samples at time `now_ms`: while
    /// recording, append them to the capture buffer and feed the level
    /// meter, yielding an RMS value when one is due; when idle (a callback
    /// racing `stop`), do nothing.
    pub fn ingest(&mut self, mono: &Vec<i16>, now_ms: u64) -> (r: Option<u16>)
        requires
            old(self).inv(),
            mono@.len() <= usize::MAX - RMS_WINDOW,
            old(self)@.buffer.len() + mono@.len() <= MAX_CAPTURE_SAMPLES,
        ensures
            final(self).inv(),
            !old(self)@.recording ==> final(self)@ == old(self)@ && r is None,
            old(self)@.recording ==> {
                &&& final(self)@.recording
                &&& final(self)@.input_sample_rate == old(self)@.input_sample_rate
                &&& final(self)@.buffer == old(self)@.buffer + mono@
                &&& old(self)@.meter matches Some(m) && {
                    let (m2, e) = feed_step(m, mono@, now_ms);
                    &&& final(self)@.meter == Some(m2)
                    &&& match r {
                        Some(v) => e == Some(v as nat),
                        None => e is None,
                    }
                }
            },
    {
        if !self.recording {
            return None;
        }
        let mut i: usize = 0;
        while i < mono.len()
            invariant
                i <= mono@.len(),
                self.buffer@ == old(self)@.buffer + mono@.subrange(0, i as int),
                mono@.len() <= usize::MAX - RMS_WINDOW,
                old(self)@.buffer.len() + mono@.len() <= MAX_CAPTURE_SAMPLES,
                self.recording == old(self).recording,
                self.input_sample_rate == old(self).input_sample_rate,
                self.meter == old(self).meter,
            decreases mono@.len() - i,
        {
            self.buffer.push(mono[i]);
            proof {
                assert(self.buffer@ =~= old(self)@.buffer + mono@.subrange(0, i + 1));
            }
            i = i + 1;
        }
        proof {
            assert(mono@.subrange(0, mono@.len() as int) =~= mono@);
        }
        self.meter.feed(mono, now_ms)
    }

    /// Leave `Recording`: the level window is discarded and the capture
    /// buffer is returned resampled to the target rate (unchanged if the
    /// native rate already matches). In `Idle` this fails and mutates
    /// nothing.
    pub fn stop(&mut self) -> (r: Result<Vec<i16>, MicError>)
        requires
            old(self).inv(),
        ensures
            final(self).inv(),
            !old(self)@.recording ==> final(self)@ == old(self)@ && (r matches Err(e)
                && e is NotRecording),
            old(self)@.recording ==> {
                &&& !final(self)@.recording
                &&& final(self)@.meter is None
                &&& final(self)@.buffer == old(self)@.buffer
                &&& final(self)@.input_sample_rate == old(self)@.input_sample_rate
                &&& r matches Ok(out) && amps_of(out@) == resampled(
                    old(self)@.buffer,
                    old(self)@.input_sample_rate as nat,
                    TARGET_SAMPLE_RATE as nat,
                ) && (old(self)@.input_sample_rate == TARGET_SAMPLE_RATE ==> out@ == old(
                    self,
                )@.buffer)
            },
    {
        if !self.recording {
            return Err(MicError::NotRecording);
        }
        self.recording = false;
        proof {
            lemma_fundamental_div_mod(usize::MAX - 16000, 16000);
            assert(self.buffer@.len() * 16000 <= MAX_CAPTURE_SAMPLES * 16000) by (nonlinear_arith)
                requires
                    self.buffer@.len() <= MAX_CAPTURE_SAMPLES,
            ;
            assert(MAX_CAPTURE_SAMPLES * 16000 == 16000 * MAX_CAPTURE_SAMPLES) by (nonlinear_arith);
            assert((usize::MAX - 1) * self.input_sample_rate >= (usize::MAX - 1) * 1)
                by (nonlinear_arith)
                requires
                    self.input_sample_rate >= 1,
            ;
        }
        Ok(resample_linear_i16(&self.buffer, self.input_sample_rate, TARGET_SAMPLE_RATE))
    }
}

} // verus!
