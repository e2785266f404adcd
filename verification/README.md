# qwen_engine

Model management and output processing for the Qwen3-ASR speech recognition
engine, verified with Verus.

- `src/text.rs` — trimming and searching over characters, and the cleanup of
  raw model output (`clean_qwen_asr_output`), proved against `clean_spec`.
- `src/utils.rs` — decimal numbers, `HH:MM:SS` timestamps, the System
  Settings address.
- `src/model.rs` — model status and catalog entries, `QwenError` with its
  messages, and one model instance (`QwenModel`): file checks before loading,
  the load outcome, the checks before a transcription.
- `src/engine.rs` — the catalog of known models, discovery from what is on
  disk, loading, unloading and deleting, and the engine side of a download.
- `src/download.rs` — a model download as a state machine: the transition
  relation `transition`, its executable `DownloadJob::step`, and the laws of
  its progress.
- `src/provider.rs` — the errors of the transcription provider interface.
- `app/` — the application around the library: file system and network work,
  the inference backend (`qwen3-asr`), the shared engine behind a lock, the
  command interface and the provider; it performs the actions the library
  decides and hands back what happened.
