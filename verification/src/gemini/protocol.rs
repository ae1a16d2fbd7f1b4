//! Gemini Live (BidiGenerateContent) message types. Their JSON form (camelCase
//! field names) is produced where they cross the wire.

use vstd::prelude::*;
use vstd::string::StringExecFns;

verus! {

#[derive(Debug)]
pub struct Setup {
    pub setup: SetupBody,
}

#[derive(Debug)]
pub struct SetupBody {
    pub model: String,
    pub generation_config: GenerationConfig,
}

#[derive(Debug)]
pub struct GenerationConfig {
    pub response_modalities: Vec<String>,
    pub translation_config: TranslationConfig,
}

/// Live Translate settings. In auto mode only the target language is fixed;
/// the model recognises the source language.
#[derive(Debug)]
pub struct TranslationConfig {
    /// Target language, BCP-47 ("en", "zh").
    pub target_language_code: String,
    /// Whether input already in the target language is echoed (true) or muted (false).
    pub echo_target_language: bool,
}

/// Real-time audio input frame; `audio` carries base64 16-bit mono little-endian PCM.
#[derive(Debug)]
pub struct RealtimeInput {
    pub realtime_input: RealtimeInputBody,
}

#[derive(Debug)]
pub struct RealtimeInputBody {
    pub audio: AudioBlob,
}

#[derive(Debug)]
pub struct AudioBlob {
    pub mime_type: String,
    pub data: String,
}

/// Declares `serde_json::Value`, carried opaquely in server messages.
#[verifier::external_type_specification]
#[verifier::external_body]
pub struct ExJsonValue(serde_json::Value);

/// Server response (the fields this client reads).
#[derive(Debug)]
pub struct ServerMessage {
    pub server_content: Option<ServerContent>,
    pub setup_complete: Option<serde_json::Value>,
}

#[derive(Debug)]
pub struct ServerContent {
    pub model_turn: Option<ModelTurn>,
}

#[derive(Debug)]
pub struct ModelTurn {
    pub parts: Vec<Part>,
}

#[derive(Debug)]
pub struct Part {
    pub inline_data: Option<InlineData>,
}

#[derive(Debug)]
pub struct InlineData {
    pub mime_type: String,
    pub data: String,
}

impl Default for ServerMessage {
    fn default() -> (r: Self)
        ensures
            r.server_content is None,
            r.setup_complete is None,
    {
        ServerMessage { server_content: None, setup_complete: None }
    }
}

impl Default for ServerContent {
    fn default() -> (r: Self)
        ensures
            r.model_turn is None,
    {
        ServerContent { model_turn: None }
    }
}

impl Default for ModelTurn {
    fn default() -> (r: Self)
        ensures
            r.parts@.len() == 0,
    {
        ModelTurn { parts: Vec::new() }
    }
}

impl Default for Part {
    fn default() -> (r: Self)
        ensures
            r.inline_data is None,
    {
        Part { inline_data: None }
    }
}

impl Setup {
    /// Live Translate setup. No source language is written (the model
    /// recognises it); only the target `target_lang` is fixed; `echo` chooses
    /// echo or silence for input already in the target language.
    pub fn new_translate(model: &str, target_lang: &str, echo: bool) -> (r: Self)
        ensures
            r.setup.model@ == model@,
            r.setup.generation_config.response_modalities@.len() == 1,
            r.setup.generation_config.response_modalities@[0]@ == "AUDIO"@,
            r.setup.generation_config.translation_config.target_language_code@ == target_lang@,
            r.setup.generation_config.translation_config.echo_target_language == echo,
    {
        Setup {
            setup: SetupBody {
                model: String::from_str(model),
                generation_config: GenerationConfig {
                    response_modalities: vec![String::from_str("AUDIO")],
                    translation_config: TranslationConfig {
                        target_language_code: String::from_str(target_lang),
                        echo_target_language: echo,
                    },
                },
            },
        }
    }
}

} // verus!
