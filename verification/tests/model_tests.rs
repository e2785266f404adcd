use qwen_engine::model::{ModelFiles, QwenError, QwenModel};

#[test]
fn test_audio_too_short() {
    let model = QwenModel::new("test-model".to_string(), "/fake/path".to_string());

    // Model not loaded, but audio too short check happens first
    let audio = vec![0.0f32; 100]; // Too short
    let result = model.transcribe(&audio, None);

    assert!(matches!(result, Err(QwenError::AudioTooShort { .. })));
}

#[test]
fn transcribe_reports_sample_counts() {
    let model = QwenModel::new("m".to_string(), "/p".to_string());
    let audio = vec![0.0f32; 1599];
    match model.transcribe(&audio, Some("en")) {
        Err(QwenError::AudioTooShort { samples, minimum }) => {
            assert_eq!(samples, 1599);
            assert_eq!(minimum, 1600);
        }
        other => panic!("unexpected {:?}", other),
    }
}

#[test]
fn transcribe_needs_a_loaded_model() {
    let model = QwenModel::new("m".to_string(), "/p".to_string());
    let audio = vec![0.0f32; 1600];
    assert!(matches!(model.transcribe(&audio, None), Err(QwenError::ModelNotLoaded)));
}

#[test]
fn load_then_transcribe_then_unload() {
    let mut model = QwenModel::new("m".to_string(), "/models/m".to_string());
    let files = ModelFiles { dir_exists: true, config_exists: true };
    assert!(model.prepare_load(&files).is_ok());
    assert!(model.load(Ok(())).is_ok());
    assert!(model.is_loaded());
    let audio = vec![0.0f32; 16000];
    let req = model.transcribe(&audio, Some("zh")).unwrap();
    assert_eq!(req.language.as_deref(), Some("zh"));
    model.unload();
    assert!(!model.is_loaded());
    assert_eq!(model.name(), "m");
    assert_eq!(model.path(), "/models/m");
}

#[test]
fn prepare_load_reports_missing_files() {
    let model = QwenModel::new("m".to_string(), "/models/m".to_string());
    let no_dir = ModelFiles { dir_exists: false, config_exists: false };
    match model.prepare_load(&no_dir) {
        Err(QwenError::ModelNotFound(p)) => assert_eq!(p, "/models/m"),
        other => panic!("unexpected {:?}", other),
    }
    let no_config = ModelFiles { dir_exists: true, config_exists: false };
    match model.prepare_load(&no_config) {
        Err(QwenError::ModelCorrupted(m)) => assert_eq!(m, "Missing config.json in /models/m"),
        other => panic!("unexpected {:?}", other),
    }
    let complete = ModelFiles { dir_exists: true, config_exists: true };
    assert!(model.prepare_load(&complete).is_ok());
}

#[test]
fn failed_backend_load_keeps_model_unloaded() {
    let mut model = QwenModel::new("m".to_string(), "/p".to_string());
    match model.load(Err("bad weights".to_string())) {
        Err(QwenError::InferenceFailed(m)) => assert_eq!(m, "Failed to load Qwen model: bad weights"),
        other => panic!("unexpected {:?}", other),
    }
    assert!(!model.is_loaded());
}

#[test]
fn error_messages() {
    assert_eq!(QwenError::ModelNotLoaded.message(), "Model not loaded");
    assert_eq!(
        QwenError::AudioTooShort { samples: 100, minimum: 1600 }.message(),
        "Audio too short: 100 samples (minimum 1600)"
    );
    assert_eq!(QwenError::InferenceFailed("x".to_string()).message(), "Inference failed: x");
    assert_eq!(QwenError::ModelNotFound("x".to_string()).message(), "Model file not found: x");
    assert_eq!(QwenError::ModelCorrupted("x".to_string()).message(), "Model file corrupted: x");
    assert_eq!(QwenError::UnsupportedLanguage("x".to_string()).message(), "Unsupported language: x");
    assert_eq!(QwenError::Io("x".to_string()).message(), "IO error: x");
    assert_eq!(QwenError::DownloadFailed("x".to_string()).message(), "Download failed: x");
    assert_eq!(QwenError::AsrError("x".to_string()).message(), "Qwen ASR error: x");
}
