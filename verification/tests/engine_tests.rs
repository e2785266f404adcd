use qwen_engine::download::{file_weight_of, DownloadAction, DownloadEvent, DownloadJob, FileProbe, HttpReply};
use qwen_engine::engine::{
    discover_models_standalone, is_plain_model_name, known_model, DirRemoval, ModelProbe, QwenEngine, QwenEngineError,
};
use qwen_engine::model::{ModelFiles, ModelStatus, QwenError};
use qwen_engine::provider::{qwen_provider_name, TranscriptionError};

fn probe(path: &str, complete: bool) -> ModelProbe {
    ModelProbe {
        path: path.to_string(),
        dir_exists: complete,
        config_exists: complete,
        first_shard_exists: complete,
        second_shard_exists: complete,
    }
}

fn engine_with(first: bool, second: bool) -> QwenEngine {
    let mut e = QwenEngine::new("/home/u/.meetily/qwen_models".to_string());
    let probes = vec![
        probe("/home/u/.meetily/qwen_models/qwen3-asr-1.7b", first),
        probe("/home/u/.meetily/qwen_models/qwen3-asr-0.6b", second),
    ];
    e.discover_models(&probes).unwrap();
    e
}

#[test]
fn known_models_catalog() {
    assert_eq!(known_model(0), ("qwen3-asr-1.7b", 3200, "Qwen3-ASR 1.7B - 多语言高精度"));
    assert_eq!(known_model(1), ("qwen3-asr-0.6b", 1200, "Qwen3-ASR 0.6B - 轻量高效"));
}

#[test]
fn discovery_marks_complete_models_available() {
    let mut e = QwenEngine::new("/m".to_string());
    let mut partial = probe("/m/qwen3-asr-0.6b", true);
    partial.second_shard_exists = false;
    let probes = vec![probe("/m/qwen3-asr-1.7b", true), partial];
    let list = e.discover_models(&probes).unwrap();
    assert_eq!(list.len(), 2);
    assert_eq!(list[0].name, "qwen3-asr-1.7b");
    assert_eq!(list[0].size_mb, 3200);
    assert!(matches!(list[0].status, ModelStatus::Available));
    assert_eq!(list[0].path.as_deref(), Some("/m/qwen3-asr-1.7b"));
    assert!(matches!(list[1].status, ModelStatus::Missing));
    assert_eq!(e.cached_models().len(), 2);
}

#[test]
fn standalone_discovery() {
    match discover_models_standalone(None) {
        Err(e) => assert_eq!(e, "Qwen models directory not initialized"),
        Ok(_) => panic!("expected an error"),
    }
    let probes = vec![probe("/a", false), probe("/b", true)];
    let list = discover_models_standalone(Some(&probes)).unwrap();
    assert_eq!(list[1].description, "Qwen3-ASR 0.6B - 轻量高效");
    assert!(matches!(list[1].status, ModelStatus::Available));
    assert!(matches!(list[0].status, ModelStatus::Missing));
}

#[test]
fn load_unknown_and_unavailable_models() {
    let e = engine_with(false, true);
    match e.load_model("nope") {
        Err(QwenError::ModelNotFound(m)) => assert_eq!(m, "Model 'nope' not found"),
        other => panic!("unexpected {:?}", other),
    }
    match e.load_model("qwen3-asr-1.7b") {
        Err(QwenError::ModelNotFound(m)) => {
            assert_eq!(m, "Model 'qwen3-asr-1.7b' is not available. Current status: Missing")
        }
        other => panic!("unexpected {:?}", other),
    }
}

#[test]
fn load_transcribe_unload_cycle() {
    let mut e = engine_with(false, true);
    assert!(!e.is_model_loaded());
    assert!(matches!(e.transcribe(&vec![0u8; 2000], None), Err(QwenError::ModelNotLoaded)));
    let mut model = e.load_model("qwen3-asr-0.6b").unwrap();
    assert_eq!(model.path(), "/home/u/.meetily/qwen_models/qwen3-asr-0.6b");
    let files = ModelFiles { dir_exists: true, config_exists: true };
    model.prepare_load(&files).unwrap();
    model.load(Ok(())).unwrap();
    e.set_current_model(model);
    assert!(e.is_model_loaded());
    assert_eq!(e.get_current_model().as_deref(), Some("qwen3-asr-0.6b"));
    let req = e.transcribe(&vec![0.0f32; 1600], Some("yue")).unwrap();
    assert_eq!(req.language.as_deref(), Some("yue"));
    assert!(e.unload_model().is_ok());
    assert!(!e.is_model_loaded());
    assert_eq!(e.get_current_model(), None);
}

#[test]
fn deleting_the_current_model_unloads_it() {
    let mut e = engine_with(true, true);
    let mut model = e.load_model("qwen3-asr-1.7b").unwrap();
    model.load(Ok(())).unwrap();
    e.set_current_model(model);
    e.delete_model("qwen3-asr-1.7b", DirRemoval::Removed).unwrap();
    assert!(!e.is_model_loaded());
    assert!(matches!(e.cached_models()[0].status, ModelStatus::Missing));
    match e.load_model("qwen3-asr-1.7b") {
        Err(QwenError::ModelNotFound(m)) => {
            assert_eq!(m, "Model 'qwen3-asr-1.7b' is not available. Current status: Missing")
        }
        other => panic!("unexpected {:?}", other),
    }
}

#[test]
fn failed_directory_removal_is_an_io_error() {
    let mut e = engine_with(true, false);
    match e.delete_model("qwen3-asr-1.7b", DirRemoval::Failed("permission denied".to_string())) {
        Err(QwenError::Io(m)) => assert_eq!(m, "permission denied"),
        other => panic!("unexpected {:?}", other),
    }
    assert!(matches!(e.cached_models()[0].status, ModelStatus::Available));
    assert!(e.delete_model("qwen3-asr-0.6b", DirRemoval::Absent).is_ok());
}

#[test]
fn engine_error_messages() {
    assert_eq!(QwenEngineError::ModelNotFound("x".to_string()).message(), "Model not found: x");
    assert_eq!(QwenEngineError::DownloadFailed("x".to_string()).message(), "Download failed: x");
    assert_eq!(QwenEngineError::Io("x".to_string()).message(), "IO error: x");
    assert_eq!(
        QwenEngineError::ModelError(QwenError::ModelNotLoaded).message(),
        "Model error: Model not loaded"
    );
}

#[test]
fn engine_errors_convert_to_model_errors() {
    let e: QwenError = QwenEngineError::DownloadFailed("x".to_string()).into();
    assert!(matches!(e, QwenError::DownloadFailed(ref m) if m == "x"));
    let e: QwenError = QwenEngineError::ModelNotFound("y".to_string()).into();
    assert!(matches!(e, QwenError::ModelNotFound(ref m) if m == "y"));
    let e: QwenError = QwenEngineError::Io("z".to_string()).into();
    assert!(matches!(e, QwenError::Io(ref m) if m == "z"));
    let e: QwenError = QwenEngineError::ModelError(QwenError::ModelNotLoaded).into();
    assert!(matches!(e, QwenError::ModelNotLoaded));
}

#[test]
fn model_errors_convert_to_provider_errors() {
    assert!(matches!(TranscriptionError::from(QwenError::ModelNotLoaded), TranscriptionError::ModelNotLoaded));
    assert!(matches!(
        TranscriptionError::from(QwenError::AudioTooShort { samples: 3, minimum: 1600 }),
        TranscriptionError::AudioTooShort { samples: 3, minimum: 1600 }
    ));
    assert!(matches!(
        TranscriptionError::from(QwenError::UnsupportedLanguage("xx".to_string())),
        TranscriptionError::UnsupportedLanguage(ref l) if l == "xx"
    ));
    assert!(matches!(
        TranscriptionError::from(QwenError::Io("disk".to_string())),
        TranscriptionError::EngineFailed(ref m) if m == "disk"
    ));
    assert!(matches!(
        TranscriptionError::from(QwenError::InferenceFailed("bad".to_string())),
        TranscriptionError::EngineFailed(ref m) if m == "bad"
    ));
    assert_eq!(qwen_provider_name(), "Qwen3-ASR");
}

#[test]
fn download_of_unknown_model_is_refused() {
    let mut e = engine_with(false, false);
    match e.download_model("other", true) {
        Err(QwenError::ModelNotFound(m)) => assert_eq!(m, "Model 'other' not found"),
        other => panic!("unexpected {:?}", other.map(|_| ())),
    }
}

/// Simulates a whole download where every required file is fetched from the
/// first source, the weights files being large.
#[test]
fn full_download_reports_progress_and_ends_available() {
    let mut e = engine_with(false, false);
    let (mut job, mut step) = e.download_model("qwen3-asr-0.6b", true).unwrap();
    assert!(matches!(e.cached_models()[1].status, ModelStatus::Downloading { progress: 0 }));
    let mut reports: Vec<u8> = Vec::new();
    let mut urls: Vec<String> = Vec::new();
    let mut pending_chunks = 0u32;
    let size: u64 = 200_000_000;
    loop {
        if let Some(p) = step.report {
            reports.push(p);
        }
        let event = match &step.action {
            DownloadAction::CreateDir => DownloadEvent::DirCreated(Ok(())),
            DownloadAction::Probe { file, with_size } => {
                if *with_size && urls.iter().any(|u| u.ends_with(file.as_str())) {
                    DownloadEvent::Probed { probe: FileProbe::Present(size), cancelled: false }
                } else {
                    DownloadEvent::Probed { probe: FileProbe::Missing, cancelled: false }
                }
            }
            DownloadAction::Request { url, use_token, timeout_secs } => {
                urls.push(url.clone());
                if url.contains("tokenizer.json") {
                    assert!(*use_token);
                    assert_eq!(*timeout_secs, 60);
                    DownloadEvent::Replied(HttpReply::Status {
                        success: false,
                        status_text: "404 Not Found".to_string(),
                        content_length: None,
                    })
                } else {
                    assert!(!*use_token);
                    assert_eq!(*timeout_secs, 3600);
                    let large = url.ends_with(".safetensors");
                    pending_chunks = if large { 4 } else { 1 };
                    DownloadEvent::Replied(HttpReply::Status {
                        success: true,
                        status_text: "200 OK".to_string(),
                        content_length: Some(if large { size } else { 10 }),
                    })
                }
            }
            DownloadAction::CreateFile { .. } => DownloadEvent::FileCreated(Ok(())),
            DownloadAction::ReadChunk => {
                if pending_chunks == 0 {
                    DownloadEvent::ChunkRead { cancelled: false, chunk: None }
                } else {
                    pending_chunks -= 1;
                    DownloadEvent::ChunkRead { cancelled: false, chunk: Some(Ok(size / 4)) }
                }
            }
            DownloadAction::WriteChunk => DownloadEvent::ChunkWritten(Ok(())),
            DownloadAction::Finish { remove_partial, result } => {
                assert!(remove_partial.is_none());
                assert!(result.is_ok());
                break;
            }
        };
        step = e.download_step(&mut job, event);
    }
    assert!(job.is_finished());
    assert_eq!(urls[0], "https://hf-mirror.com/Qwen/Qwen3-ASR-0.6B/resolve/main/config.json");
    assert_eq!(urls.last().unwrap(), "https://huggingface.co/Qwen/Qwen3-ASR-0.6B/resolve/main/tokenizer.json");
    // Eight small files of 1.25% each (the shard index among them), then the
    // two shards of 45% each: only those are large here and report as they
    // arrive, a quarter of the file at a time.
    assert_eq!(reports, vec![21, 32, 43, 55, 66, 77, 88, 100]);
    assert!(reports.windows(2).all(|w| w[0] <= w[1]));
    assert!(matches!(e.cached_models()[1].status, ModelStatus::Available));
    let model = e.load_model("qwen3-asr-0.6b").unwrap();
    assert!(!model.is_loaded());
}

#[test]
fn existing_files_are_kept_and_counted() {
    let mut e = engine_with(false, false);
    let (mut job, mut step) = e.download_model("qwen3-asr-1.7b", true).unwrap();
    let mut reports = Vec::new();
    loop {
        if let Some(p) = step.report {
            reports.push(p);
        }
        let event = match &step.action {
            DownloadAction::CreateDir => DownloadEvent::DirCreated(Ok(())),
            DownloadAction::Probe { with_size: true, .. } => {
                DownloadEvent::Probed { probe: FileProbe::Present(200_000_000), cancelled: false }
            }
            DownloadAction::Probe { with_size: false, .. } => {
                DownloadEvent::Probed { probe: FileProbe::Present(0), cancelled: false }
            }
            DownloadAction::Finish { result, .. } => {
                assert!(result.is_ok());
                break;
            }
            other => panic!("unexpected action {:?}", other),
        };
        step = e.download_step(&mut job, event);
    }
    // The shares are 1.25% for each of the eight small files and 45% for each
    // of the two shards.
    assert_eq!(reports, vec![1, 2, 3, 5, 6, 7, 8, 10, 55, 100]);
}

#[test]
fn only_the_shards_weigh_as_weights() {
    assert_eq!(file_weight_of("model-00001-of-00002.safetensors"), 180);
    assert_eq!(file_weight_of("model-00002-of-00002.safetensors"), 180);
    assert_eq!(file_weight_of("model.safetensors.index.json"), 5);
    assert_eq!(file_weight_of("config.json"), 5);
}

/// Small files of 1000 bytes, the shard index among them, are kept; so are
/// shards over 100 MB. A shard of 1000 bytes is fetched again.
#[test]
fn small_index_file_is_kept_and_small_shard_fetched_again() {
    let mut e = engine_with(false, false);
    let (mut job, mut step) = e.download_model("qwen3-asr-1.7b", true).unwrap();
    let mut reports = Vec::new();
    let mut requested = Vec::new();
    loop {
        if let Some(p) = step.report {
            reports.push(p);
        }
        let event = match &step.action {
            DownloadAction::CreateDir => DownloadEvent::DirCreated(Ok(())),
            DownloadAction::Probe { file, with_size: true } => {
                let size = if file == "model-00002-of-00002.safetensors" {
                    1000
                } else if file.ends_with(".safetensors") {
                    200_000_000
                } else {
                    1000
                };
                DownloadEvent::Probed { probe: FileProbe::Present(size), cancelled: false }
            }
            DownloadAction::Probe { with_size: false, .. } => {
                DownloadEvent::Probed { probe: FileProbe::Present(0), cancelled: false }
            }
            DownloadAction::Request { url, .. } => {
                requested.push(url.clone());
                DownloadEvent::Replied(HttpReply::Status {
                    success: false,
                    status_text: "503 Service Unavailable".to_string(),
                    content_length: None,
                })
            }
            DownloadAction::Finish { result, .. } => {
                assert!(result.is_err());
                break;
            }
            other => panic!("unexpected action {:?}", other),
        };
        step = e.download_step(&mut job, event);
    }
    assert_eq!(reports, vec![1, 2, 3, 5, 6, 7, 8, 10, 55]);
    assert_eq!(
        requested,
        vec![
            "https://hf-mirror.com/Qwen/Qwen3-ASR-1.7B/resolve/main/model-00002-of-00002.safetensors".to_string(),
            "https://huggingface.co/Qwen/Qwen3-ASR-1.7B/resolve/main/model-00002-of-00002.safetensors".to_string(),
        ]
    );
}

#[test]
fn small_weights_file_is_fetched_again_and_cancellation_stops() {
    let mut e = engine_with(false, false);
    let (mut job, _) = e.download_model("qwen3-asr-1.7b", false).unwrap();
    let s = e.download_step(&mut job, DownloadEvent::DirCreated(Ok(())));
    assert!(matches!(s.action, DownloadAction::Probe { ref file, with_size: true } if file == "config.json"));
    let s = e.download_step(
        &mut job,
        DownloadEvent::Probed { probe: FileProbe::Present(0), cancelled: true },
    );
    match s.action {
        DownloadAction::Finish { remove_partial: None, result: Err(QwenError::DownloadFailed(m)) } => {
            assert_eq!(m, "Download cancelled")
        }
        other => panic!("unexpected {:?}", other),
    }
    match &e.cached_models()[0].status {
        ModelStatus::Error { message } => assert_eq!(message, "Download failed: Download cancelled"),
        other => panic!("unexpected {:?}", other),
    }
    match e.load_model("qwen3-asr-1.7b") {
        Err(QwenError::ModelNotFound(m)) => assert_eq!(
            m,
            "Model 'qwen3-asr-1.7b' is not available. Current status: Error { message: \"Download failed: Download cancelled\" }"
        ),
        other => panic!("unexpected {:?}", other),
    }
}

#[test]
fn all_sources_failing_reports_the_last_error() {
    let mut e = engine_with(false, false);
    let (mut job, _) = e.download_model("qwen3-asr-1.7b", false).unwrap();
    e.download_step(&mut job, DownloadEvent::DirCreated(Ok(())));
    let s = e.download_step(&mut job, DownloadEvent::Probed { probe: FileProbe::Missing, cancelled: false });
    assert!(matches!(s.action, DownloadAction::Request { ref url, use_token: false, .. }
        if url == "https://hf-mirror.com/Qwen/Qwen3-ASR-1.7B/resolve/main/config.json"));
    let s = e.download_step(&mut job, DownloadEvent::Replied(HttpReply::NetworkFailed("timeout".to_string())));
    assert!(matches!(s.action, DownloadAction::Request { ref url, use_token: true, .. }
        if url == "https://huggingface.co/Qwen/Qwen3-ASR-1.7B/resolve/main/config.json"));
    let s = e.download_step(
        &mut job,
        DownloadEvent::Replied(HttpReply::Status {
            success: false,
            status_text: "401 Unauthorized".to_string(),
            content_length: None,
        }),
    );
    match s.action {
        DownloadAction::Finish { result: Err(QwenError::DownloadFailed(m)), .. } => assert_eq!(
            m,
            "Failed to download config.json from all sources. Last error: HTTP 401 Unauthorized"
        ),
        other => panic!("unexpected {:?}", other),
    }
}

#[test]
fn directory_and_stream_failures() {
    let mut e = engine_with(false, false);
    let (mut job, _) = e.download_model("qwen3-asr-1.7b", false).unwrap();
    let s = e.download_step(&mut job, DownloadEvent::DirCreated(Err("read-only".to_string())));
    assert!(matches!(s.action, DownloadAction::Finish { result: Err(QwenError::DownloadFailed(ref m)), .. }
        if m == "Failed to create directory: read-only"));
    assert!(matches!(e.cached_models()[0].status,
        ModelStatus::Error { ref message } if message == "Download failed: Failed to create directory: read-only"));

    let (mut job, _) = e.download_model("qwen3-asr-1.7b", false).unwrap();
    e.download_step(&mut job, DownloadEvent::DirCreated(Ok(())));
    e.download_step(&mut job, DownloadEvent::Probed { probe: FileProbe::Missing, cancelled: false });
    e.download_step(&mut job, DownloadEvent::Replied(HttpReply::Status {
        success: true,
        status_text: "200 OK".to_string(),
        content_length: Some(5),
    }));
    e.download_step(&mut job, DownloadEvent::FileCreated(Ok(())));
    let s = e.download_step(&mut job, DownloadEvent::ChunkRead { cancelled: true, chunk: Some(Ok(3)) });
    match s.action {
        DownloadAction::Finish { remove_partial: Some(f), result: Err(QwenError::DownloadFailed(m)) } => {
            assert_eq!(f, "config.json");
            assert_eq!(m, "Download cancelled");
        }
        other => panic!("unexpected {:?}", other),
    }
}

#[test]
fn unknown_repository_is_model_not_found() {
    let (mut job, step) = DownloadJob::new("custom", false);
    assert!(matches!(step.action, DownloadAction::CreateDir));
    let s = job.step(DownloadEvent::DirCreated(Ok(())));
    match s.action {
        DownloadAction::Finish { remove_partial: None, result: Err(QwenError::ModelNotFound(m)) } => {
            assert_eq!(m, "Unknown model: custom")
        }
        other => panic!("unexpected {:?}", other),
    }
    assert!(job.is_finished());
}

#[test]
fn plain_model_names() {
    assert!(is_plain_model_name("qwen3-asr-1.7b"));
    assert!(is_plain_model_name("a.b"));
    assert!(is_plain_model_name("..."));
    assert!(!is_plain_model_name(""));
    assert!(!is_plain_model_name("."));
    assert!(!is_plain_model_name(".."));
    assert!(!is_plain_model_name("/home/u"));
    assert!(!is_plain_model_name("../other"));
    assert!(!is_plain_model_name("a\\b"));
    assert!(!is_plain_model_name("C:x"));
}
