//! Voice selection and the speech configuration derived from it.
use epub_audio::api::ApiError;
use epub_audio::api::ApiState;
use epub_audio::tts::TtsConfig;
use epub_audio::tts::TtsError;
use epub_audio::tts::TtsService;
use epub_audio::voice::language_from_header;
use epub_audio::voice::select;

#[test]
fn exact_match_wins_over_default() {
    let profile = select("ru-RU,en;q=0.8");
    assert_eq!(profile.language, "ru-RU");
    assert_eq!(profile.voice_name, "ru_RU-ruslan-medium");
    assert_eq!(profile.sample_rate, 22050);
}

#[test]
fn unconfigured_preference_selects_the_default() {
    let profile = select("zz-XX,fr;q=0.5");
    assert_eq!(profile.language, "en-US");
    assert_eq!(profile.voice_name, "en_US-ryan-high");
}

#[test]
fn primary_subtag_matches_when_exact_does_not() {
    let profile = select("ru");
    assert_eq!(profile.voice_name, "ru_RU-ruslan-medium");
    let profile = select("en-GB");
    assert_eq!(profile.voice_name, "en_US-ryan-high");
}

#[test]
fn weight_annotation_and_whitespace_are_stripped() {
    let profile = select("  ru-RU ;q=0.9 , en");
    assert_eq!(profile.voice_name, "ru_RU-ruslan-medium");
}

#[test]
fn empty_preference_selects_the_default() {
    let profile = select("");
    assert_eq!(profile.voice_name, "en_US-ryan-high");
}

#[test]
fn header_parsing_takes_the_first_tag() {
    assert_eq!(language_from_header(Some("en-US,en;q=0.9,ru;q=0.8")), "en-US");
    assert_eq!(language_from_header(Some("ru;q=0.8")), "ru");
    assert_eq!(language_from_header(Some(" de-DE ")), "de-DE");
    assert_eq!(language_from_header(None), "en-US");
}

#[test]
fn config_from_language_uses_the_selected_voice() {
    let config = TtsConfig::from_language("ru-RU");
    assert_eq!(config.voice_name, "ru_RU-ruslan-medium");
    assert_eq!(config.model_path, "./assets/voices/ru_RU-ruslan-medium.onnx");
    assert_eq!(config.voice_path, "./assets/voices/ru_RU-ruslan-medium.onnx.config");
    assert_eq!(config.sample_rate, 22050);
    assert_eq!(config.language, "ru-RU");
}

#[test]
fn config_from_unknown_language_falls_back() {
    let config = TtsConfig::from_language("ja-JP");
    assert_eq!(config.voice_name, "en_US-ryan-high");
    assert_eq!(config.language, "ja-JP");
}

#[test]
fn config_new_derives_paths_and_language() {
    let config = TtsConfig::new(String::from("en_US-ryan-high"), 22050);
    assert_eq!(config.model_path, "./assets/voices/en_US-ryan-high.onnx");
    assert_eq!(config.voice_path, "./assets/voices/en_US-ryan-high.onnx.config");
    assert_eq!(config.language, "en_US");
    assert_eq!(config.sample_rate, 22050);
}

#[test]
fn default_config_is_the_english_voice() {
    let config = TtsConfig::default();
    assert_eq!(config.voice_name, "en_US-ryan-high");
    assert_eq!(config.model_path, "./assets/voices/en_US-ryan-high.onnx");
    assert_eq!(config.language, "en-US");
}

#[test]
fn service_copies_the_configured_paths() {
    let service = TtsService::new(TtsConfig::default()).unwrap();
    assert_eq!(service.model_path, "./assets/voices/en_US-ryan-high.onnx");
    assert_eq!(service.config_path, "./assets/voices/en_US-ryan-high.onnx.config");
}

#[test]
fn with_language_switches_the_voice() {
    let service = TtsService::new(TtsConfig::default()).unwrap();
    let russian = service.with_language("ru-RU,en;q=0.8").unwrap();
    assert_eq!(russian.config.voice_name, "ru_RU-ruslan-medium");
    assert_eq!(russian.model_path, "./assets/voices/ru_RU-ruslan-medium.onnx");
}

#[test]
fn wav_header_is_empty_for_self_describing_output() {
    let service = TtsService::new(TtsConfig::default()).unwrap();
    assert_eq!(service.create_wav_header(100000), Vec::<u8>::new());
}

#[test]
fn error_messages_name_their_cause() {
    assert_eq!(
        TtsError::HtmlProcessingError(String::from("bad tag")).message(),
        "Failed to process HTML: bad tag"
    );
    assert_eq!(
        TtsError::PiperError(String::from("no phonemes")).message(),
        "Failed to run Piper TTS: no phonemes"
    );
    assert_eq!(TtsError::IoError(String::from("closed")).message(), "IO error: closed");
    assert_eq!(TtsError::ModelError(String::from("missing")).message(), "Model error: missing");
}

#[test]
fn api_error_carries_the_message() {
    let err = TtsError::ModelError(String::from("missing"));
    let api_err = ApiError::from_tts(&err);
    assert_eq!(api_err.message, "Model error: missing");
}

#[test]
fn api_state_holds_the_service() {
    let state = ApiState::new(TtsService::new(TtsConfig::default()).unwrap());
    assert_eq!(state.tts_service.model_path, "./assets/voices/en_US-ryan-high.onnx");
}
