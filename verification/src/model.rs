//! The Qwen3-ASR model: its catalog entry, its errors, and the state of one
//! model instance (loaded or not).
use vstd::prelude::*;
use crate::utils::{decimal, push_decimal};

verus! {

// ---------------------------------------------------------------------------
// Model status
// ---------------------------------------------------------------------------

/// Model status for tracking availability and download state.
#[derive(Debug)]
pub enum ModelStatus {
    /// Model is downloaded and ready to use
    Available,
    /// Model is not downloaded
    Missing,
    /// Model is being downloaded (progress percentage 0-100)
    Downloading { progress: u8 },
    /// Model download or loading failed
    Error { message: String },
    /// Model file is corrupted and needs to be re-downloaded
    Corrupted { message: String },
}

/// The abstract value of a [`ModelStatus`].
pub enum ModelStatusView {
    Available,
    Missing,
    Downloading { progress: u8 },
    Error { message: Seq<char> },
    Corrupted { message: Seq<char> },
}

impl View for ModelStatus {
    type V = ModelStatusView;

    open spec fn view(&self) -> ModelStatusView {
        match self {
            ModelStatus::Available => ModelStatusView::Available,
            ModelStatus::Missing => ModelStatusView::Missing,
            ModelStatus::Downloading { progress } => ModelStatusView::Downloading { progress: *progress },
            ModelStatus::Error { message } => ModelStatusView::Error { message: message@ },
            ModelStatus::Corrupted { message } => ModelStatusView::Corrupted { message: message@ },
        }
    }
}

impl Clone for ModelStatus {
    fn clone(&self) -> (r: Self)
        ensures
            r@ == self@,
    {
        match self {
            ModelStatus::Available => ModelStatus::Available,
            ModelStatus::Missing => ModelStatus::Missing,
            ModelStatus::Downloading { progress } => ModelStatus::Downloading { progress: *progress },
            ModelStatus::Error { message } => ModelStatus::Error { message: message.clone() },
            ModelStatus::Corrupted { message } => ModelStatus::Corrupted { message: message.clone() },
        }
    }
}

impl ModelStatus {
    /// Whether the status is `Available`.
    pub fn is_available(&self) -> (b: bool)
        ensures
            b == (self@ is Available),
    {
        match self {
            ModelStatus::Available => true,
            _ => false,
        }
    }
}

// ---------------------------------------------------------------------------
// Model information
// ---------------------------------------------------------------------------

/// Information about a Qwen model. The path is held in its displayed form.
#[derive(Debug)]
pub struct ModelInfo {
    pub name: String,
    pub size_mb: u64,
    pub status: ModelStatus,
    pub description: String,
    pub path: Option<String>,
}

/// The abstract value of a [`ModelInfo`].
pub struct ModelInfoView {
    pub name: Seq<char>,
    pub size_mb: u64,
    pub status: ModelStatusView,
    pub description: Seq<char>,
    pub path: Option<Seq<char>>,
}

/// The abstract value of an optional string.
pub open spec fn opt_view(s: Option<String>) -> Option<Seq<char>> {
    match s {
        Some(s) => Some(s@),
        None => None,
    }
}

impl View for ModelInfo {
    type V = ModelInfoView;

    open spec fn view(&self) -> ModelInfoView {
        ModelInfoView {
            name: self.name@,
            size_mb: self.size_mb,
            status: self.status@,
            description: self.description@,
            path: opt_view(self.path),
        }
    }
}

/// A copy of an optional string.
pub fn clone_opt(s: &Option<String>) -> (r: Option<String>)
    ensures
        opt_view(r) == opt_view(*s),
{
    match s {
        Some(s) => Some(s.clone()),
        None => None,
    }
}

impl Clone for ModelInfo {
    fn clone(&self) -> (r: Self)
        ensures
            r@ == self@,
    {
        ModelInfo {
            name: self.name.clone(),
            size_mb: self.size_mb,
            status: self.status.clone(),
            description: self.description.clone(),
            path: clone_opt(&self.path),
        }
    }
}

// ---------------------------------------------------------------------------
// Errors
// ---------------------------------------------------------------------------

/// Errors that can occur during Qwen model operations.
#[derive(Debug)]
pub enum QwenError {
    ModelNotLoaded,
    AudioTooShort { samples: usize, minimum: usize },
    InferenceFailed(String),
    ModelNotFound(String),
    ModelCorrupted(String),
    UnsupportedLanguage(String),
    /// An I/O error, held as its text.
    Io(String),
    DownloadFailed(String),
    AsrError(String),
}

/// The abstract value of a [`QwenError`].
pub enum QwenErrorView {
    ModelNotLoaded,
    AudioTooShort { samples: usize, minimum: usize },
    InferenceFailed(Seq<char>),
    ModelNotFound(Seq<char>),
    ModelCorrupted(Seq<char>),
    UnsupportedLanguage(Seq<char>),
    Io(Seq<char>),
    DownloadFailed(Seq<char>),
    AsrError(Seq<char>),
}

impl View for QwenError {
    type V = QwenErrorView;

    open spec fn view(&self) -> QwenErrorView {
        match self {
            QwenError::ModelNotLoaded => QwenErrorView::ModelNotLoaded,
            QwenError::AudioTooShort { samples, minimum } => QwenErrorView::AudioTooShort {
                samples: *samples,
                minimum: *minimum,
            },
            QwenError::InferenceFailed(m) => QwenErrorView::InferenceFailed(m@),
            QwenError::ModelNotFound(m) => QwenErrorView::ModelNotFound(m@),
            QwenError::ModelCorrupted(m) => QwenErrorView::ModelCorrupted(m@),
            QwenError::UnsupportedLanguage(m) => QwenErrorView::UnsupportedLanguage(m@),
            QwenError::Io(m) => QwenErrorView::Io(m@),
            QwenError::DownloadFailed(m) => QwenErrorView::DownloadFailed(m@),
            QwenError::AsrError(m) => QwenErrorView::AsrError(m@),
        }
    }
}

/// The error of a result, by its abstract value.
pub open spec fn err_view<T>(r: Result<T, QwenError>) -> Option<QwenErrorView> {
    match r {
        Ok(_) => None,
        Err(e) => Some(e@),
    }
}

/// The text that describes an error.
pub open spec fn error_message(e: QwenErrorView) -> Seq<char> {
    match e {
        QwenErrorView::ModelNotLoaded => "Model not loaded"@,
        QwenErrorView::AudioTooShort { samples, minimum } => "Audio too short: "@ + decimal(
            samples as nat,
        ) + " samples (minimum "@ + decimal(minimum as nat) + ")"@,
        QwenErrorView::InferenceFailed(m) => "Inference failed: "@ + m,
        QwenErrorView::ModelNotFound(m) => "Model file not found: "@ + m,
        QwenErrorView::ModelCorrupted(m) => "Model file corrupted: "@ + m,
        QwenErrorView::UnsupportedLanguage(m) => "Unsupported language: "@ + m,
        QwenErrorView::Io(m) => "IO error: "@ + m,
        QwenErrorView::DownloadFailed(m) => "Download failed: "@ + m,
        QwenErrorView::AsrError(m) => "Qwen ASR error: "@ + m,
    }
}

impl QwenError {
    /// The text that describes this error (what the error displays).
    pub fn message(&self) -> (r: String)
        ensures
            r@ == error_message(self@),
    {
        match self {
            QwenError::ModelNotLoaded => String::from_str("Model not loaded"),
            QwenError::AudioTooShort { samples, minimum } => {
                let mut s = String::from_str("Audio too short: ");
                push_decimal(&mut s, *samples as u64);
                s.append(" samples (minimum ");
                push_decimal(&mut s, *minimum as u64);
                s.append(")");
                s
            },
            QwenError::InferenceFailed(m) => String::from_str("Inference failed: ").concat(m.as_str()),
            QwenError::ModelNotFound(m) => String::from_str("Model file not found: ").concat(m.as_str()),
            QwenError::ModelCorrupted(m) => String::from_str("Model file corrupted: ").concat(m.as_str()),
            QwenError::UnsupportedLanguage(m) => String::from_str("Unsupported language: ").concat(
                m.as_str(),
            ),
            QwenError::Io(m) => String::from_str("IO error: ").concat(m.as_str()),
            QwenError::DownloadFailed(m) => String::from_str("Download failed: ").concat(m.as_str()),
            QwenError::AsrError(m) => String::from_str("Qwen ASR error: ").concat(m.as_str()),
        }
    }
}

/// The error for a failed transcription by the inference backend, whose
/// error text is `e`.
pub fn transcription_failed(e: &str) -> (r: QwenError)
    ensures
        r@ == QwenErrorView::InferenceFailed("Transcription failed: "@ + e@),
{
    QwenError::InferenceFailed(String::from_str("Transcription failed: ").concat(e))
}

/// The error for an error of the Qwen ASR backend, whose error text is `e`.
pub fn asr_error(e: &str) -> (r: QwenError)
    ensures
        r@ == QwenErrorView::AsrError(e@),
{
    QwenError::AsrError(String::from_str(e))
}

// ---------------------------------------------------------------------------
// One model instance
// ---------------------------------------------------------------------------

/// The smallest number of samples that is transcribed (100 ms at 16 kHz).
pub const MIN_AUDIO_SAMPLES: usize = 1600;

/// What was found in a model directory before loading it.
#[derive(Debug, Clone, Copy)]
pub struct ModelFiles {
    pub dir_exists: bool,
    pub config_exists: bool,
}

/// What to hand to the inference backend for one transcription.
#[derive(Debug)]
pub struct TranscriptionRequest {
    /// The language hint, if any (e.g. "zh", "en", "yue").
    pub language: Option<String>,
}

/// Qwen ASR model wrapper: its name, its directory (in displayed form) and
/// whether the inference backend holds it in memory.
#[derive(Debug)]
pub struct QwenModel {
    name: String,
    model_path: String,
    loaded: bool,
}

/// The abstract value of a [`QwenModel`].
pub struct QwenModelView {
    pub name: Seq<char>,
    pub path: Seq<char>,
    pub loaded: bool,
}

impl View for QwenModel {
    type V = QwenModelView;

    closed spec fn view(&self) -> QwenModelView {
        QwenModelView { name: self.name@, path: self.model_path@, loaded: self.loaded }
    }
}

/// The error, if any, that the files found in the model directory give
/// before the backend is asked to load the model at `path`.
pub open spec fn model_files_error(path: Seq<char>, files: ModelFiles) -> Option<QwenErrorView> {
    if !files.dir_exists {
        Some(QwenErrorView::ModelNotFound(path))
    } else if !files.config_exists {
        Some(QwenErrorView::ModelCorrupted("Missing config.json in "@ + path))
    } else {
        None
    }
}

/// The error, if any, that a transcription request for `samples` samples
/// gets from a model whose load state is `loaded`.
pub open spec fn transcribe_error(loaded: bool, samples: nat) -> Option<QwenErrorView> {
    if samples < MIN_AUDIO_SAMPLES {
        Some(QwenErrorView::AudioTooShort { samples: samples as usize, minimum: MIN_AUDIO_SAMPLES })
    } else if !loaded {
        Some(QwenErrorView::ModelNotLoaded)
    } else {
        None
    }
}

/// A transcription request is accepted only for at least 1600 samples
/// (100 ms at 16 kHz) and a loaded model; shorter audio is refused with
/// `AudioTooShort` and its length, whether the model is loaded or not.
pub proof fn lemma_transcribe_needs_enough_audio(loaded: bool, samples: nat)
    ensures
        transcribe_error(loaded, samples) is None <==> (samples >= 1600 && loaded),
        samples < 1600 ==> transcribe_error(loaded, samples) == Some(
            QwenErrorView::AudioTooShort { samples: samples as usize, minimum: 1600 },
        ),
        samples >= 1600 && !loaded ==> transcribe_error(loaded, samples) == Some(QwenErrorView::ModelNotLoaded),
{
}

impl QwenModel {
    /// Create a new Qwen model instance, not yet loaded.
    pub fn new(name: String, model_path: String) -> (m: Self)
        ensures
            m@ == (QwenModelView { name: name@, path: model_path@, loaded: false }),
    {
        QwenModel { name, model_path, loaded: false }
    }

    /// Checks the files found in the model directory before loading: the
    /// directory and its `config.json` must exist. (These are the files that
    /// discovery also looks for, so a model it reports `Available` passes.)
    pub fn prepare_load(&self, files: &ModelFiles) -> (r: Result<(), QwenError>)
        ensures
            err_view(r) == model_files_error(self@.path, *files),
    {
        if !files.dir_exists {
            return Err(QwenError::ModelNotFound(self.model_path.clone()));
        }
        if !files.config_exists {
            return Err(
                QwenError::ModelCorrupted(
                    String::from_str("Missing config.json in ").concat(self.model_path.as_str()),
                ),
            );
        }
        Ok(())
    }

    /// Load the model into memory: records what the inference backend
    /// answered when asked to load it (after `prepare_load` accepted its
    /// files). On success the model is loaded; on failure (with the backend's
    /// error text) it stays as it was.
    pub fn load(&mut self, outcome: Result<(), String>) -> (r: Result<(), QwenError>)
        ensures
            final(self)@.name == old(self)@.name,
            final(self)@.path == old(self)@.path,
            match outcome {
                Ok(()) => r is Ok && final(self)@.loaded,
                Err(e) => {
                    &&& err_view(r) == Some(QwenErrorView::InferenceFailed("Failed to load Qwen model: "@ + e@))
                    &&& final(self)@ == old(self)@
                },
            },
    {
        match outcome {
            Ok(()) => {
                self.loaded = true;
                Ok(())
            },
            Err(e) => Err(
                QwenError::InferenceFailed(String::from_str("Failed to load Qwen model: ").concat(e.as_str())),
            ),
        }
    }

    /// Checks a transcription request for the audio samples `audio`: audio
    /// shorter than `MIN_AUDIO_SAMPLES` is refused first, then a model that is
    /// not loaded. On success, the request to hand to the inference backend
    /// carries the language hint.
    pub fn transcribe<S>(&self, audio: &[S], language: Option<&str>) -> (r: Result<TranscriptionRequest, QwenError>)
        ensures
            err_view(r) == transcribe_error(self@.loaded, audio@.len()),
            r matches Ok(req) ==> opt_view(req.language) == match language {
                Some(l) => Some(l@),
                None => None::<Seq<char>>,
            },
    {
        if audio.len() < MIN_AUDIO_SAMPLES {
            return Err(QwenError::AudioTooShort { samples: audio.len(), minimum: MIN_AUDIO_SAMPLES });
        }
        if !self.loaded {
            return Err(QwenError::ModelNotLoaded);
        }
        let language = match language {
            Some(l) => Some(String::from_str(l)),
            None => None,
        };
        Ok(TranscriptionRequest { language })
    }

    /// Unload the model from memory.
    pub fn unload(&mut self)
        ensures
            final(self)@ == (QwenModelView { loaded: false, ..old(self)@ }),
    {
        if self.loaded {
            self.loaded = false;
        }
    }

    /// Check if model is loaded.
    pub fn is_loaded(&self) -> (b: bool)
        ensures
            b == self@.loaded,
    {
        self.loaded
    }

    /// Get model name.
    pub fn name(&self) -> (s: &str)
        ensures
            s@ == self@.name,
    {
        self.name.as_str()
    }

    /// Get model path (in displayed form).
    pub fn path(&self) -> (s: &str)
        ensures
            s@ == self@.path,
    {
        self.model_path.as_str()
    }
}

} // verus!
