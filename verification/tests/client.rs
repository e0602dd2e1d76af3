use voice_core::client::{
    build_upload_urls, fallback_step, label_of, parse_transcription, prepare_upload, primary_step,
    Endpoint, HttpOutcome, UploadStep,
};
use voice_core::errors::ApiError;
use voice_core::wav::encode_wav;

fn response(status: u16, body: &str) -> HttpOutcome {
    HttpOutcome::Response { status: status, body: body.to_string() }
}

// Primary answers "not found": the client retries the fallback endpoint,
// whose success is tagged as the fallback.
#[test]
fn not_found_falls_back_and_tags_result() {
    let step = primary_step(response(404, ""), "http://h/api/pipeline/run/audio".to_string());
    assert!(matches!(step, UploadStep::TryFallback));

    let result = fallback_step(
        response(200, "{\"text\":\"hi\",\"job_id\":\"42\"}"),
        "http://h/api/transcribe".to_string(),
    );
    let res = result.unwrap();
    assert_eq!(res.text, "hi");
    assert_eq!(res.job_id, "42");
    assert_eq!(res.endpoint_used, Endpoint::TranscribeFallback);
    assert_eq!(label_of(res.endpoint_used), "transcribe_fallback");
}

// Any other primary failure is terminal: a 500 is reported as a server
// error and the fallback is never tried.
#[test]
fn server_error_does_not_fall_back() {
    let step = primary_step(response(500, "boom"), "http://h/p".to_string());
    match step {
        UploadStep::Finished { result } => match result {
            Err(ApiError::ServerError { status, body }) => {
                assert_eq!(status, 500);
                assert_eq!(body, "boom");
            }
            other => panic!("expected a server error, got {:?}", other),
        },
        UploadStep::TryFallback => panic!("a 500 must not reach the fallback"),
    }
}

#[test]
fn method_not_allowed_falls_back() {
    let step = primary_step(response(405, ""), "http://h/p".to_string());
    assert!(matches!(step, UploadStep::TryFallback));
}

// A primary success is parsed and tagged with the primary endpoint.
#[test]
fn primary_success_is_tagged_primary() {
    let step = primary_step(
        response(201, "{\"job_id\":\"7\",\"text\":\"ok then\",\"extra\":3}"),
        "http://h/p".to_string(),
    );
    match step {
        UploadStep::Finished { result } => {
            let res = result.unwrap();
            assert_eq!(res.text, "ok then");
            assert_eq!(res.job_id, "7");
            assert_eq!(res.endpoint_used, Endpoint::PipelineRunAudio);
            assert_eq!(label_of(res.endpoint_used), "pipeline_run_audio");
        }
        UploadStep::TryFallback => panic!("a success must not reach the fallback"),
    }
}

// Network-level failures are transport errors and never trigger the
// fallback.
#[test]
fn transport_failure_is_terminal() {
    let step = primary_step(
        HttpOutcome::TransportFailure { detail: "connection refused".to_string() },
        "http://h/p".to_string(),
    );
    match step {
        UploadStep::Finished { result } => match result {
            Err(ApiError::TransportError { url, detail }) => {
                assert_eq!(url, "http://h/p");
                assert_eq!(detail, "connection refused");
            }
            other => panic!("expected a transport error, got {:?}", other),
        },
        UploadStep::TryFallback => panic!("a transport failure must not reach the fallback"),
    }
}

#[test]
fn failing_fallback_is_a_server_error() {
    let result = fallback_step(response(503, "later"), "http://h/f".to_string());
    assert!(matches!(result, Err(ApiError::ServerError { status: 503, .. })));

    let result = fallback_step(
        HttpOutcome::TransportFailure { detail: "timeout".to_string() },
        "http://h/f".to_string(),
    );
    assert!(matches!(result, Err(ApiError::TransportError { .. })));
}

// Malformed or incomplete response bodies are invalid responses, naming the
// endpoint that produced them.
#[test]
fn bad_bodies_are_invalid_responses() {
    let r = parse_transcription("not json at all", Endpoint::PipelineRunAudio);
    assert!(matches!(
        r,
        Err(ApiError::InvalidResponse { endpoint: Endpoint::PipelineRunAudio })
    ));

    let r = parse_transcription("{\"text\":\"hi\"}", Endpoint::TranscribeFallback);
    assert!(matches!(
        r,
        Err(ApiError::InvalidResponse { endpoint: Endpoint::TranscribeFallback })
    ));

    let r = parse_transcription("{\"text\":\"hi\",\"job_id\":7}", Endpoint::TranscribeFallback);
    assert!(matches!(r, Err(ApiError::InvalidResponse { .. })));

    let r = parse_transcription("[1,2,3]", Endpoint::PipelineRunAudio);
    assert!(matches!(r, Err(ApiError::InvalidResponse { .. })));
}

// A success status with an unparseable body is an invalid response of the
// endpoint that answered, not a server error.
#[test]
fn primary_success_with_bad_body_is_invalid_response() {
    let step = primary_step(response(200, "<html>not json</html>"), "http://h/p".to_string());
    match step {
        UploadStep::Finished { result } => assert!(matches!(
            result,
            Err(ApiError::InvalidResponse { endpoint: Endpoint::PipelineRunAudio })
        )),
        UploadStep::TryFallback => panic!("a success status must not reach the fallback"),
    }
}

// The base URL loses one trailing path separator; the two endpoint paths
// hang off the same base.
#[test]
fn upload_urls_are_normalized() {
    let (p, f) = build_upload_urls("http://host:9000/");
    assert_eq!(p, "http://host:9000/api/pipeline/run/audio");
    assert_eq!(f, "http://host:9000/api/transcribe");

    let (p, f) = build_upload_urls("http://host:9000");
    assert_eq!(p, "http://host:9000/api/pipeline/run/audio");
    assert_eq!(f, "http://host:9000/api/transcribe");

    // Exactly one separator is stripped.
    let (p, _) = build_upload_urls("http://host//");
    assert_eq!(p, "http://host//api/pipeline/run/audio");
}

// The plan carries the encoded container and both URLs.
#[test]
fn prepare_upload_encodes_and_plans() {
    let samples: Vec<i16> = vec![0, 1000, -1000];
    let plan = prepare_upload(&samples, "http://host/").unwrap();
    assert_eq!(plan.wav, encode_wav(&samples).unwrap());
    assert_eq!(plan.primary_url, "http://host/api/pipeline/run/audio");
    assert_eq!(plan.fallback_url, "http://host/api/transcribe");
}
