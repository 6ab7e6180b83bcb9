use kokoro_openai_server::error::AppError;
use kokoro_openai_server::validation::{
    get_available_voices, is_valid_lower_format, openai_alias_voices, resolve_legacy_voice_alias, validate_input,
    validate_model, validate_response_format, validate_voice, Voice,
};

fn voice(id: &str, name: &str) -> Voice {
    Voice { id: id.to_string(), name: name.to_string(), preview_url: None }
}

#[test]
fn test_validate_response_format() {
    assert!(validate_response_format("wav").is_ok());
    assert!(validate_response_format("WAV").is_ok());
    assert!(validate_response_format("pcm").is_ok());
    assert!(validate_response_format("PCM").is_ok());
    assert!(validate_response_format("mp3").is_ok());
    assert!(validate_response_format("MP3").is_ok());
    assert!(validate_response_format("opus").is_ok());
    assert!(validate_response_format("OPUS").is_ok());
    assert!(validate_response_format("flac").is_err());
}

#[test]
fn response_format_is_answered_in_lower_case() {
    assert_eq!(validate_response_format("WaV").unwrap(), "wav");
    match validate_response_format("FLAC") {
        Err(AppError::InvalidResponseFormat(f)) => assert_eq!(f, "FLAC"),
        other => panic!("unexpected {other:?}"),
    }
}

#[test]
fn test_validate_input() {
    assert!(validate_input("Hello", 100).is_ok());
    assert!(validate_input("", 100).is_err());
    assert!(validate_input("a".repeat(101).as_str(), 100).is_err());
}

#[test]
fn input_errors_carry_their_messages() {
    match validate_input("", 100) {
        Err(AppError::InvalidRequest(m)) => assert_eq!(m, "Input text cannot be empty"),
        other => panic!("unexpected {other:?}"),
    }
    match validate_input("abcdef", 5) {
        Err(AppError::InvalidRequest(m)) => {
            assert_eq!(m, "Input text exceeds maximum length of 5 characters")
        }
        other => panic!("unexpected {other:?}"),
    }
    assert!(validate_input("abcde", 5).is_ok());
    // The limit counts characters, not bytes.
    assert!(validate_input("ééééé", 5).is_ok());
}

#[test]
fn test_validate_model() {
    assert!(validate_model("tts-1").is_ok());
    assert!(validate_model("kokoro").is_ok());
    assert!(validate_model("invalid").is_err());
}

#[test]
fn model_not_found_names_the_model() {
    assert_eq!(validate_model("kokoro").unwrap(), "kokoro");
    match validate_model("tts-1-hd") {
        Err(AppError::ModelNotFound(m)) => assert_eq!(m, "tts-1-hd"),
        other => panic!("unexpected {other:?}"),
    }
}

#[test]
fn test_validate_voice_accepts_legacy_aliases() {
    let voices = vec![
        voice("af_alloy", "Alloy"),
        voice("am_echo", "Echo"),
        voice("bm_fable", "Fable"),
        voice("af_nova", "Nova"),
        voice("am_onyx", "Onyx"),
        voice("af_shimmer", "Shimmer"),
        voice("am_adam", "Adam"),
        voice("am_michael", "Michael"),
        voice("am_eric", "Eric"),
        voice("am_liam", "Liam"),
        voice("af_nicole", "Nicole"),
        voice("af_sarah", "Sarah"),
        voice("af_river", "River"),
    ];

    assert_eq!(validate_voice("alloy", &voices).unwrap(), "af_alloy");
    assert_eq!(validate_voice("echo", &voices).unwrap(), "am_echo");
    assert_eq!(validate_voice("fable", &voices).unwrap(), "bm_fable");
    assert_eq!(validate_voice("nova", &voices).unwrap(), "af_nova");
    assert_eq!(validate_voice("onyx", &voices).unwrap(), "am_onyx");
    assert_eq!(validate_voice("shimmer", &voices).unwrap(), "af_shimmer");
    assert_eq!(validate_voice("ash", &voices).unwrap(), "am_adam");
    assert_eq!(validate_voice("ballad", &voices).unwrap(), "am_michael");
    assert_eq!(validate_voice("verse", &voices).unwrap(), "am_eric");
    assert_eq!(validate_voice("cedar", &voices).unwrap(), "am_liam");
    assert_eq!(validate_voice("coral", &voices).unwrap(), "af_nicole");
    assert_eq!(validate_voice("sage", &voices).unwrap(), "af_sarah");
    assert_eq!(validate_voice("marin", &voices).unwrap(), "af_river");
}

#[test]
fn test_validate_voice_accepts_case_insensitive_aliases() {
    let voices = vec![voice("am_echo", "Echo")];

    assert_eq!(validate_voice("EcHo", &voices).unwrap(), "am_echo");
}

#[test]
fn unknown_voice_is_rejected_under_its_own_name() {
    let voices = vec![voice("am_echo", "Echo")];
    assert_eq!(validate_voice("am_echo", &voices).unwrap(), "am_echo");
    match validate_voice("Nova", &voices) {
        Err(AppError::VoiceNotFound(v)) => assert_eq!(v, "Nova"),
        other => panic!("unexpected {other:?}"),
    }
    assert_eq!(resolve_legacy_voice_alias("bm_george"), "bm_george");
    assert_eq!(resolve_legacy_voice_alias("SAGE"), "af_sarah");
}

#[test]
fn catalog_and_alias_voices() {
    let voices = get_available_voices();
    assert_eq!(voices.len(), 43);
    assert_eq!(voices[0].id, "af_alloy");
    assert_eq!(voices[0].name, "Alloy (Female, American)");
    assert_eq!(voices[42].id, "pm_santa");
    assert!(voices.iter().all(|v| v.preview_url.is_none()));

    let aliases = openai_alias_voices();
    assert_eq!(aliases.len(), 13);
    assert_eq!(aliases[0].id, "alloy");
    assert_eq!(aliases[0].name, "alloy (OpenAI alias for af_alloy)");
    assert_eq!(aliases[12].name, "marin (OpenAI alias for af_river)");
}

#[test]
fn lower_case_formats() {
    assert!(is_valid_lower_format("wav"));
    assert!(is_valid_lower_format("opus"));
    assert!(!is_valid_lower_format("WAV"));
    assert!(!is_valid_lower_format("flac"));
}
