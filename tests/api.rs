use kokoro_openai_server::api::{
    constant_time_eq, content_type_for, default_response_format, default_voice, framing_for,
    is_authorized, list_models, list_voices, validate_speech_request,
};
use kokoro_openai_server::error::AppError;
use kokoro_openai_server::stream::Framing;

#[test]
fn keys_compare_by_content() {
    assert!(constant_time_eq("secret", "secret"));
    assert!(!constant_time_eq("secret", "secreT"));
    assert!(!constant_time_eq("secret", "secret1"));
    assert!(constant_time_eq("", ""));
    assert!(!constant_time_eq("", "a"));
}

#[test]
fn authorization_rules() {
    assert!(is_authorized("/health", Some("k"), None));
    assert!(is_authorized("/", Some("k"), None));
    assert!(is_authorized("/v1/audio/voices", Some("k"), None));
    assert!(is_authorized("/v1/models", None, None));
    assert!(is_authorized("/v1/models", Some("k"), Some("Bearer k")));
    assert!(!is_authorized("/v1/models", Some("k"), Some("Bearer x")));
    assert!(!is_authorized("/v1/models", Some("k"), Some("k")));
    assert!(!is_authorized("/v1/audio/speech", Some("k"), None));
}

#[test]
fn defaults() {
    assert_eq!(default_voice(), "af_alloy");
    assert_eq!(default_response_format(), "wav");
}

#[test]
fn model_listing() {
    let r = list_models();
    assert_eq!(r.object, "list");
    let ids: Vec<&str> = r.data.iter().map(|m| m.id.as_str()).collect();
    assert_eq!(ids, vec!["tts-1", "tts-1-hd", "kokoro", "gpt-4o-mini-tts"]);
    assert!(r.data.iter().all(|m| m.created == 1704067200 && m.owned_by == "kokoro"));
}

#[test]
fn voice_listing_appends_aliases_once() {
    let r = list_voices();
    assert_eq!(r.object, "list");
    assert_eq!(r.data.len(), 49);
    assert_eq!(r.data[43].id, "alloy");
    assert_eq!(r.data[43].name, "Alloy (OpenAI alias)");
    assert_eq!(r.data[48].id, "shimmer");
}

#[test]
fn speech_request_checks_in_order() {
    let ok = validate_speech_request("tts-1", "Hi", 10, "PCM", "Nova").unwrap();
    assert_eq!(ok, ("pcm".to_string(), "af_nova".to_string()));
    assert!(matches!(
        validate_speech_request("x", "", 10, "flac", "nobody"),
        Err(AppError::ModelNotFound(_))
    ));
    assert!(matches!(
        validate_speech_request("kokoro", "", 10, "flac", "nobody"),
        Err(AppError::InvalidRequest(_))
    ));
    assert!(matches!(
        validate_speech_request("kokoro", "Hi", 10, "flac", "nobody"),
        Err(AppError::InvalidResponseFormat(_))
    ));
    assert!(matches!(
        validate_speech_request("kokoro", "Hi", 10, "wav", "nobody"),
        Err(AppError::VoiceNotFound(_))
    ));
}

#[test]
fn framing_and_content_type() {
    assert_eq!(framing_for("wav"), Framing::Wav);
    assert_eq!(framing_for("mp3"), Framing::Pcm);
    assert_eq!(content_type_for(Framing::Wav), "audio/wav");
    assert_eq!(content_type_for(Framing::Pcm), "audio/pcm");
}

#[test]
fn error_bodies() {
    let (status, body) = AppError::model_not_found("x").to_error_body();
    assert_eq!(status, 400);
    assert_eq!(body.error.message, "Model 'x' not found");
    assert_eq!(body.error.error_type, "invalid_request_error");
    assert_eq!(body.error.param.as_deref(), Some("model"));
    let (status, body) = AppError::Unauthorized.to_error_body();
    assert_eq!(status, 401);
    assert_eq!(body.error.message, "Unauthorized");
    assert_eq!(body.error.error_type, "authentication_error");
    let (status, body) = AppError::Backend("secret detail".to_string()).to_error_body();
    assert_eq!(status, 500);
    assert_eq!(body.error.message, "Backend processing error");
    assert!(body.error.param.is_none() && body.error.code.is_none());
    let (_, body) = AppError::unsupported_format("flac").to_error_body();
    assert_eq!(
        body.error.message,
        "Response format 'flac' not supported. Supported formats: wav, pcm"
    );
    let (_, body) = AppError::invalid_request("bad").to_error_body();
    assert_eq!(body.error.message, "bad");
    let (status, body) = AppError::Internal.to_error_body();
    assert_eq!(status, 500);
    assert_eq!(body.error.message, "Internal server error");
    assert_eq!(body.error.error_type, "api_error");
    let (_, body) = AppError::voice_not_found("zz").to_error_body();
    assert_eq!(body.error.message, "Voice 'zz' not found");
    assert_eq!(body.error.param.as_deref(), Some("voice"));
}
