//! Upload protocol of the transcription client.
//!
//! An upload is one or two multipart POST exchanges: the recording is
//! packaged as a WAV container, sent to the primary endpoint on the
//! normalized base URL, and, exactly when the primary answers "not found" or
//! "method not allowed", retried once against the fallback endpoint. Any
//! other non-success status, and every network-level failure, is terminal.
//! A successful response's JSON body is parsed and tagged with the endpoint
//! that served it.
//!
//! The exchanges themselves are the caller's: the caller performs each POST
//! and hands the outcome back to [`primary_step`] and [`fallback_step`],
//! which decide everything else.

use crate::errors::ApiError;
use crate::wav::{encode_wav, wav_bytes, MAX_WAV_SAMPLES};
use vstd::prelude::*;
use vstd::string::{StrSliceExecFns, StringExecFns};

verus! {

/// Which upload endpoint served a request.
#[derive(Clone, Copy, PartialEq, Eq, Structural, Debug)]
pub enum Endpoint {
    /// The primary path, `/api/pipeline/run/audio`.
    PipelineRunAudio,
    /// The fallback path, `/api/transcribe`.
    TranscribeFallback,
}

/// The marker a normalized result carries for each endpoint.
pub open spec fn endpoint_label(e: Endpoint) -> Seq<char> {
    match e {
        Endpoint::PipelineRunAudio => "pipeline_run_audio"@,
        Endpoint::TranscribeFallback => "transcribe_fallback"@,
    }
}

/// The server's base URL with one trailing path separator removed.
pub open spec fn normalized_base(s: Seq<char>) -> Seq<char> {
    if s.len() > 0 && s.last() == '/' {
        s.drop_last()
    } else {
        s
    }
}

/// A success status of either endpoint.
pub open spec fn is_success_status(status: u16) -> bool {
    200 <= status < 300
}

/// The primary statuses that send the client to the fallback endpoint:
/// "not found" and "method not allowed".
pub open spec fn triggers_fallback(status: u16) -> bool {
    status == 404 || status == 405
}

/// A normalized transcription response, tagged with the endpoint that
/// served it.
#[derive(Debug)]
pub struct TranscriptionResult {
    pub text: String,
    pub job_id: String,
    pub endpoint_used: Endpoint,
}

/// What one HTTP exchange came to.
pub enum HttpOutcome {
    /// The server was reached and answered.
    Response { status: u16, body: String },
    /// The request never completed (resolution, connection, timeout).
    TransportFailure { detail: String },
}

/// Everything fixed before the network is touched: the encoded container
/// and the two endpoint URLs on the normalized base.
pub struct UploadPlan {
    pub wav: Vec<u8>,
    pub primary_url: String,
    pub fallback_url: String,
}

/// What to do after the primary exchange.
pub enum UploadStep {
    /// The upload is decided: a result or a terminal failure.
    Finished { result: Result<TranscriptionResult, ApiError> },
    /// POST the same container to the fallback URL, then ask
    /// [`fallback_step`].
    TryFallback,
}

/// The marker string of an endpoint.
pub fn label_of(e: Endpoint) -> (r: String)
    ensures
        r@ == endpoint_label(e),
{
    match e {
        Endpoint::PipelineRunAudio => String::from_str("pipeline_run_audio"),
        Endpoint::TranscribeFallback => String::from_str("transcribe_fallback"),
    }
}

/// Build the primary and fallback URLs from the server's base URL, with one
/// trailing path separator stripped.
pub fn build_upload_urls(base_url: &str) -> (r: (String, String))
    ensures
        r.0@ == normalized_base(base_url@) + "/api/pipeline/run/audio"@,
        r.1@ == normalized_base(base_url@) + "/api/transcribe"@,
{
    let n = base_url.unicode_len();
    let stripped: &str = if n > 0 && base_url.get_char(n - 1) == '/' {
        let s = base_url.substring_char(0, n - 1);
        proof {
            assert(s@ =~= normalized_base(base_url@));
        }
        s
    } else {
        base_url
    };
    let mut primary = String::from_str(stripped);
    primary.append("/api/pipeline/run/audio");
    let mut fallback = String::from_str(stripped);
    fallback.append("/api/transcribe");
    (primary, fallback)
}

/// Encode the recording and fix the two endpoint URLs. Fails exactly when
/// the container cannot be produced, before anything touches the network.
pub fn prepare_upload(samples: &Vec<i16>, base_url: &str) -> (r: Result<UploadPlan, ApiError>)
    ensures
        samples@.len() <= MAX_WAV_SAMPLES ==> (r matches Ok(plan) && {
            &&& plan.wav@ == wav_bytes(samples@)
            &&& plan.primary_url@ == normalized_base(base_url@) + "/api/pipeline/run/audio"@
            &&& plan.fallback_url@ == normalized_base(base_url@) + "/api/transcribe"@
        }),
        samples@.len() > MAX_WAV_SAMPLES ==> (r matches Err(e) && e is EncodingError),
{
    let wav = match encode_wav(samples) {
        Ok(w) => w,
        Err(e) => {
            return Err(e);
        },
    };
    let (primary_url, fallback_url) = build_upload_urls(base_url);
    Ok(UploadPlan { wav, primary_url, fallback_url })
}

/// The string content of field `key` of the JSON object in `body`, if
/// `body` is a JSON object whose field `key` is a string; what it is on
/// given strings only the JSON parser decides.
pub uninterp spec fn string_field_of(body: Seq<char>, key: Seq<char>) -> Option<Seq<char>>;

/// Relies on serde_json::from_str::<serde_json::Value>, Value::get and
/// Value::as_str: parsing is a function of `body` alone, the lookup and the
/// string view are functions of the parsed value and `key`, so the chain's
/// result depends on the two strings alone.
#[verifier::external_body]
fn json_string_field(body: &str, key: &str) -> (r: Option<String>)
    ensures
        match r {
            Some(s) => string_field_of(body@, key@) == Some(s@),
            None => string_field_of(body@, key@) is None,
        },
{
    let parsed: serde_json::Value = serde_json::from_str(body).ok()?;
    let field = parsed.get(key)?;
    field.as_str().map(|s| s.to_owned())
}

/// Build the normalized result from the two extracted fields: both present
/// gives the result tagged with `endpoint`; a missing field is an invalid
/// response of that endpoint.
pub fn assemble_result(text: Option<String>, job_id: Option<String>, endpoint: Endpoint) -> (r:
    Result<TranscriptionResult, ApiError>)
    ensures
        text matches Some(t) ==> job_id matches Some(j) ==> (r matches Ok(res) && res.text == t
            && res.job_id == j && res.endpoint_used == endpoint),
        (text is None || job_id is None) ==> (r matches Err(e)
            && e matches ApiError::InvalidResponse { endpoint: ep } && ep == endpoint),
{
    match (text, job_id) {
        (Some(t), Some(j)) => Ok(
            TranscriptionResult { text: t, job_id: j, endpoint_used: endpoint },
        ),
        _ => Err(ApiError::InvalidResponse { endpoint }),
    }
}

/// What parsing a success body comes to: the result carries the body's
/// `text` and `job_id` string fields and the endpoint's tag, it succeeds
/// exactly when both fields exist, and a failure is an invalid response
/// naming that endpoint.
pub open spec fn parsed_response(
    body: Seq<char>,
    endpoint: Endpoint,
    r: Result<TranscriptionResult, ApiError>,
) -> bool {
    &&& (r matches Ok(res) ==> res.endpoint_used == endpoint && string_field_of(body, "text"@)
        == Some(res.text@) && string_field_of(body, "job_id"@) == Some(res.job_id@))
    &&& (r matches Err(e) ==> (e matches ApiError::InvalidResponse { endpoint: ep } && ep
        == endpoint))
    &&& ((r is Ok) <==> (string_field_of(body, "text"@) is Some && string_field_of(
        body,
        "job_id"@,
    ) is Some))
}

/// Parse a successful exchange's JSON body and tag the result with the
/// endpoint that served it: it succeeds exactly when the body is a JSON
/// object with string fields `text` and `job_id`, which the result then
/// carries; anything else is an invalid response naming that endpoint.
pub fn parse_transcription(body: &str, endpoint: Endpoint) -> (r: Result<
    TranscriptionResult,
    ApiError,
>)
    ensures
        parsed_response(body@, endpoint, r),
{
    let text = json_string_field(body, "text");
    let job_id = json_string_field(body, "job_id");
    assemble_result(text, job_id, endpoint)
}

/// Decide the upload after the primary exchange: a success response is
/// parsed and tagged with the primary endpoint; "not found" and "method not
/// allowed" send the client to the fallback; any other status is a terminal
/// server error; a transport failure is terminal and never falls back.
pub fn primary_step(outcome: HttpOutcome, primary_url: String) -> (r: UploadStep)
    ensures
        match outcome {
            HttpOutcome::TransportFailure { detail } => r matches UploadStep::Finished { result }
                && (result matches Err(e) && e matches ApiError::TransportError {
                url,
                detail: d,
            } && url == primary_url && d == detail),
            HttpOutcome::Response { status, body } => {
                if is_success_status(status) {
                    r matches UploadStep::Finished { result } && parsed_response(
                        body@,
                        Endpoint::PipelineRunAudio,
                        result,
                    )
                } else if triggers_fallback(status) {
                    r is TryFallback
                } else {
                    r matches UploadStep::Finished { result } && (result matches Err(e)
                        && e matches ApiError::ServerError { status: st, body: b } && st == status
                        && b == body)
                }
            },
        },
{
    match outcome {
        HttpOutcome::TransportFailure { detail } => UploadStep::Finished {
            result: Err(ApiError::TransportError { url: primary_url, detail }),
        },
        HttpOutcome::Response { status, body } => {
            if 200 <= status && status < 300 {
                UploadStep::Finished {
                    result: parse_transcription(body.as_str(), Endpoint::PipelineRunAudio),
                }
            } else if status == 404 || status == 405 {
                UploadStep::TryFallback
            } else {
                UploadStep::Finished { result: Err(ApiError::ServerError { status, body }) }
            }
        },
    }
}

/// Decide the upload after the fallback exchange: a success response is
/// parsed and tagged with the fallback endpoint; any other status is a
/// server error; a transport failure is terminal.
pub fn fallback_step(outcome: HttpOutcome, fallback_url: String) -> (r: Result<
    TranscriptionResult,
    ApiError,
>)
    ensures
        match outcome {
            HttpOutcome::TransportFailure { detail } => r matches Err(e)
                && e matches ApiError::TransportError { url, detail: d } && url == fallback_url
                && d == detail,
            HttpOutcome::Response { status, body } => {
                if is_success_status(status) {
                    parsed_response(body@, Endpoint::TranscribeFallback, r)
                } else {
                    r matches Err(e) && e matches ApiError::ServerError { status: st, body: b }
                        && st == status && b == body
                }
            },
        },
{
    match outcome {
        HttpOutcome::TransportFailure { detail } => Err(
            ApiError::TransportError { url: fallback_url, detail },
        ),
        HttpOutcome::Response { status, body } => {
            if 200 <= status && status < 300 {
                parse_transcription(body.as_str(), Endpoint::TranscribeFallback)
            } else {
                Err(ApiError::ServerError { status, body })
            }
        },
    }
}

} // verus!
