//! The errors of the transcription provider interface, and how Qwen errors
//! map onto them.
use vstd::prelude::*;
use crate::model::QwenError;

verus! {

/// Errors of the transcription provider interface, common to all engines.
#[derive(Debug)]
pub enum TranscriptionError {
    ModelNotLoaded,
    AudioTooShort { samples: usize, minimum: usize },
    EngineFailed(String),
    UnsupportedLanguage(String),
}

/// The provider error that a Qwen error maps to: the variants the interface
/// shares keep their data, every other error becomes `EngineFailed` with the
/// error's text.
pub open spec fn provider_error(err: QwenError) -> TranscriptionError {
    match err {
        QwenError::ModelNotLoaded => TranscriptionError::ModelNotLoaded,
        QwenError::AudioTooShort { samples, minimum } => TranscriptionError::AudioTooShort { samples, minimum },
        QwenError::InferenceFailed(msg) => TranscriptionError::EngineFailed(msg),
        QwenError::UnsupportedLanguage(lang) => TranscriptionError::UnsupportedLanguage(lang),
        QwenError::ModelNotFound(msg) => TranscriptionError::EngineFailed(msg),
        QwenError::ModelCorrupted(msg) => TranscriptionError::EngineFailed(msg),
        QwenError::Io(msg) => TranscriptionError::EngineFailed(msg),
        QwenError::DownloadFailed(msg) => TranscriptionError::EngineFailed(msg),
        QwenError::AsrError(msg) => TranscriptionError::EngineFailed(msg),
    }
}

impl From<QwenError> for TranscriptionError {
    fn from(err: QwenError) -> (r: TranscriptionError) {
        match err {
            QwenError::ModelNotLoaded => TranscriptionError::ModelNotLoaded,
            QwenError::AudioTooShort { samples, minimum } => {
                TranscriptionError::AudioTooShort { samples, minimum }
            },
            QwenError::InferenceFailed(msg) => TranscriptionError::EngineFailed(msg),
            QwenError::UnsupportedLanguage(lang) => TranscriptionError::UnsupportedLanguage(lang),
            QwenError::ModelNotFound(msg) => TranscriptionError::EngineFailed(msg),
            QwenError::ModelCorrupted(msg) => TranscriptionError::EngineFailed(msg),
            QwenError::Io(msg) => TranscriptionError::EngineFailed(msg),
            QwenError::DownloadFailed(msg) => TranscriptionError::EngineFailed(msg),
            QwenError::AsrError(msg) => TranscriptionError::EngineFailed(msg),
        }
    }
}

impl vstd::std_specs::convert::FromSpecImpl<QwenError> for TranscriptionError {
    open spec fn obeys_from_spec() -> bool {
        true
    }

    open spec fn from_spec(v: QwenError) -> TranscriptionError {
        provider_error(v)
    }
}

/// The name under which the Qwen engine is offered as a transcription
/// provider.
pub fn qwen_provider_name() -> (s: &'static str)
    ensures
        s@ == "Qwen3-ASR"@,
{
    "Qwen3-ASR"
}

} // verus!
