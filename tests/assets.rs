use kokoro_openai_server::assets::{
    choose_espeak_home, default_piper_url, piper_archive_name_for_target, EspeakHome,
    PIPER_PHONEMIZE_TAG,
};

#[test]
fn test_default_url_contains_release_tag() {
    let url = default_piper_url("linux", "x86_64").unwrap();
    assert!(url.contains(PIPER_PHONEMIZE_TAG));
}

#[test]
fn test_archive_name_for_target_supported_in_tests() {
    let name = piper_archive_name_for_target("linux", "x86_64").unwrap();
    assert!(name.ends_with(".tar.gz"));
    assert!(name.starts_with("piper-phonemize_"));
}

#[test]
fn archive_urls_per_target() {
    assert_eq!(
        default_piper_url("macos", "aarch64").unwrap(),
        "https://github.com/rhasspy/piper-phonemize/releases/download/2023.11.14-4/piper-phonemize_macos_aarch64.tar.gz"
    );
    assert_eq!(
        piper_archive_name_for_target("linux", "arm").unwrap(),
        "piper-phonemize_linux_armv7l.tar.gz"
    );
    assert_eq!(
        default_piper_url("windows", "x86_64").unwrap_err(),
        "No default piper-phonemize archive for target windows/x86_64; set KOKORO_PIPER_PHONEMIZE_URL"
    );
}

#[test]
fn espeak_home_sources_in_order() {
    assert_eq!(choose_espeak_home(Some(true), true, true), EspeakHome::Configured);
    assert_eq!(choose_espeak_home(Some(false), true, true), EspeakHome::ConfiguredInvalid);
    assert_eq!(choose_espeak_home(None, true, true), EspeakHome::Discovered);
    assert_eq!(choose_espeak_home(None, false, true), EspeakHome::Cached);
    assert_eq!(choose_espeak_home(None, false, false), EspeakHome::Download);
}
