//! The speech service configuration: which voice model a request uses,
//! derived from the language preference through the three-tier voice
//! selection, and the text handed to synthesis.  Synthesis itself is an
//! outside capability (text and voice profile in, raw audio bytes out);
//! the delivery of the synthesized buffer lives in the audio module.
use crate::strutil::chars_to_string;
use crate::strutil::split_before;
use crate::strutil::str_to_chars;
use crate::strutil::take_until;
use crate::text::extract_spec;
use crate::text::extract_text_from_html;
use crate::voice::select;
use crate::voice::select_spec;
use vstd::prelude::*;
use vstd::string::StringExecFns;

verus! {

/// A failure of one speech request.
#[derive(Debug)]
pub enum TtsError {
    /// The markup could not be processed.
    HtmlProcessingError(String),
    /// The synthesis backend failed.
    PiperError(String),
    /// Reading or writing the synthesis buffer failed.
    IoError(String),
    /// The voice model could not be loaded.
    ModelError(String),
}

/// The display message of a speech failure.
pub open spec fn tts_error_message_spec(e: TtsError) -> Seq<char> {
    match e {
        TtsError::HtmlProcessingError(s) => "Failed to process HTML: "@ + s@,
        TtsError::PiperError(s) => "Failed to run Piper TTS: "@ + s@,
        TtsError::IoError(s) => "IO error: "@ + s@,
        TtsError::ModelError(s) => "Model error: "@ + s@,
    }
}

impl TtsError {
    /// Renders the failure for reporting at the boundary.
    pub fn message(&self) -> (r: String)
        ensures
            r@ == tts_error_message_spec(*self),
    {
        match self {
            TtsError::HtmlProcessingError(s) => String::from_str("Failed to process HTML: ").concat(
                s.as_str(),
            ),
            TtsError::PiperError(s) => String::from_str("Failed to run Piper TTS: ").concat(
                s.as_str(),
            ),
            TtsError::IoError(s) => String::from_str("IO error: ").concat(s.as_str()),
            TtsError::ModelError(s) => String::from_str("Model error: ").concat(s.as_str()),
        }
    }
}

/// Where the model file of a voice lives.
pub open spec fn model_path_spec(voice: Seq<char>) -> Seq<char> {
    "./assets/voices/"@ + voice + ".onnx"@
}

/// Where the model configuration file of a voice lives.
pub open spec fn voice_path_spec(voice: Seq<char>) -> Seq<char> {
    "./assets/voices/"@ + voice + ".onnx.config"@
}

/// The statically derived configuration of one voice.
pub struct TtsConfig {
    pub voice_name: String,
    pub model_path: String,
    pub voice_path: String,
    pub sample_rate: u32,
    pub language: String,
}

/// Whether `c` is the configuration for the given voice, rate and
/// language: both asset paths derived from the voice name.
pub open spec fn config_for(voice: Seq<char>, rate: u32, language: Seq<char>, c: TtsConfig) -> bool {
    &&& c.voice_name@ == voice
    &&& c.model_path@ == model_path_spec(voice)
    &&& c.voice_path@ == voice_path_spec(voice)
    &&& c.sample_rate == rate
    &&& c.language@ == language
}

fn voice_paths(voice_name: &str) -> (r: (String, String))
    ensures
        r.0@ == model_path_spec(voice_name@),
        r.1@ == voice_path_spec(voice_name@),
{
    let model_path = String::from_str("./assets/voices/").concat(voice_name).concat(".onnx");
    let voice_path = String::from_str("./assets/voices/").concat(voice_name).concat(
        ".onnx.config",
    );
    (model_path, voice_path)
}

impl TtsConfig {
    /// The configuration for a voice name: asset paths derived from the
    /// name, the language taken as the name's first `-`-separated piece.
    pub fn new(voice_name: String, sample_rate: u32) -> (r: TtsConfig)
        ensures
            config_for(voice_name@, sample_rate, take_until(voice_name@, '-'), r),
    {
        let language_chars = split_before(&str_to_chars(voice_name.as_str()), '-');
        let language = chars_to_string(&language_chars);
        let (model_path, voice_path) = voice_paths(voice_name.as_str());
        TtsConfig { voice_name, model_path, voice_path, sample_rate, language }
    }

    /// The configuration for a language preference, through the
    /// three-tier voice selection; total, always yields a configuration.
    pub fn from_language(language: &str) -> (r: TtsConfig)
        ensures
            config_for(
                select_spec(language@).voice_name,
                select_spec(language@).sample_rate,
                language@,
                r,
            ),
    {
        let p = select(language);
        let (model_path, voice_path) = voice_paths(p.voice_name.as_str());
        TtsConfig {
            voice_name: p.voice_name,
            model_path,
            voice_path,
            sample_rate: p.sample_rate,
            language: String::from_str(language),
        }
    }
}

impl Default for TtsConfig {
    /// The configuration of the default voice.
    fn default() -> (r: TtsConfig)
        ensures
            config_for("en_US-ryan-high"@, 22050, "en-US"@, r),
    {
        let (model_path, voice_path) = voice_paths("en_US-ryan-high");
        TtsConfig {
            voice_name: String::from_str("en_US-ryan-high"),
            model_path,
            voice_path,
            sample_rate: 22050,
            language: String::from_str("en-US"),
        }
    }
}

/// The speech service of one request: knows which model and
/// configuration file synthesis is to load.
pub struct TtsService {
    pub model_path: String,
    pub config_path: String,
    pub config: TtsConfig,
}

impl TtsService {
    /// Sets the service up over the given configuration.  Setup itself
    /// cannot fail; the `Result` mirrors the service interface.
    pub fn new(config: TtsConfig) -> (r: Result<TtsService, TtsError>)
        ensures
            r matches Ok(s) && s.model_path@ == config.model_path@ && s.config_path@
                == config.voice_path@ && s.config == config,
    {
        let model_path = config.model_path.clone();
        let config_path = config.voice_path.clone();
        Ok(TtsService { model_path, config_path, config })
    }

    /// The service for another language, through the three-tier voice
    /// selection.
    pub fn with_language(&self, language: &str) -> (r: Result<TtsService, TtsError>)
        ensures
            r matches Ok(s) && config_for(
                select_spec(language@).voice_name,
                select_spec(language@).sample_rate,
                language@,
                s.config,
            ) && s.model_path@ == model_path_spec(select_spec(language@).voice_name)
                && s.config_path@ == voice_path_spec(select_spec(language@).voice_name),
    {
        let config = TtsConfig::from_language(language);
        TtsService::new(config)
    }

    /// The plain text synthesis is handed for a markup fragment.  Total;
    /// the `Result` mirrors the service interface.
    pub fn extract_text_from_html(&self, html_content: &str) -> (r: Result<String, TtsError>)
        ensures
            r matches Ok(t) && t@ == extract_spec(html_content@),
    {
        Ok(extract_text_from_html(html_content))
    }

    /// The synthesis output is already a self-describing audio container,
    /// so no header bytes are owed before the data chunks.
    pub fn create_wav_header(&self, _audio_data_len: usize) -> (r: Vec<u8>)
        ensures
            r@ == Seq::<u8>::empty(),
    {
        Vec::new()
    }
}

} // verus!
