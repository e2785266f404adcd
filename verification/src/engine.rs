//! The Qwen3-ASR engine: the catalog of known models, their discovered
//! status, the currently loaded model, and the decisions of model download.
use vstd::prelude::*;
use crate::model::{
    ModelStatus, ModelStatusView, ModelInfoView, QwenError, QwenErrorView, QwenModel,
    QwenModelView, TranscriptionRequest, err_view, opt_view, clone_opt, transcribe_error, error_message,
    ModelFiles, model_files_error,
};
use crate::model::ModelInfo as CachedModelInfo;
use crate::utils::{decimal, push_decimal, str_debug, str_debug_text};
use crate::text::chars_of;
use crate::download::{
    DownloadJob, DownloadJobView, DownloadEvent, DownloadStep, DownloadStepView, DownloadActionView,
    DownloadStage, accepts, transition, weight_sum, REQUIRED_FILE_COUNT,
};

verus! {

// ---------------------------------------------------------------------------
// Plain types
// ---------------------------------------------------------------------------

/// Download progress information.
#[derive(Debug)]
pub struct DownloadProgress {
    pub model_name: String,
    /// 0-100
    pub progress: u8,
}

/// Model information for the frontend; the path is in displayed form.
#[derive(Debug)]
pub struct ModelInfo {
    pub name: String,
    pub size_mb: u64,
    pub status: ModelStatus,
    pub description: String,
    pub path: Option<String>,
}

impl View for ModelInfo {
    type V = ModelInfoView;

    open spec fn view(&self) -> ModelInfoView {
        ModelInfoView {
            name: self.name@,
            size_mb: self.size_mb,
            status: self.status@,
            description: self.description@,
            path: opt_view(self.path),
        }
    }
}

impl Clone for ModelInfo {
    fn clone(&self) -> (r: Self)
        ensures
            r@ == self@,
    {
        ModelInfo {
            name: self.name.clone(),
            size_mb: self.size_mb,
            status: self.status.clone(),
            description: self.description.clone(),
            path: clone_opt(&self.path),
        }
    }
}

impl ModelInfo {
    /// The frontend form of a cached model entry.
    pub fn from_cached(m: &CachedModelInfo) -> (r: Self)
        ensures
            r@ == m@,
    {
        ModelInfo {
            name: m.name.clone(),
            size_mb: m.size_mb,
            status: m.status.clone(),
            description: m.description.clone(),
            path: clone_opt(&m.path),
        }
    }
}

/// Qwen engine errors.
#[derive(Debug)]
pub enum QwenEngineError {
    ModelNotFound(String),
    DownloadFailed(String),
    /// An I/O error, held as its text.
    Io(String),
    ModelError(QwenError),
}

/// The abstract value of a [`QwenEngineError`].
pub enum QwenEngineErrorView {
    ModelNotFound(Seq<char>),
    DownloadFailed(Seq<char>),
    Io(Seq<char>),
    ModelError(QwenErrorView),
}

impl View for QwenEngineError {
    type V = QwenEngineErrorView;

    open spec fn view(&self) -> QwenEngineErrorView {
        match self {
            QwenEngineError::ModelNotFound(m) => QwenEngineErrorView::ModelNotFound(m@),
            QwenEngineError::DownloadFailed(m) => QwenEngineErrorView::DownloadFailed(m@),
            QwenEngineError::Io(m) => QwenEngineErrorView::Io(m@),
            QwenEngineError::ModelError(e) => QwenEngineErrorView::ModelError(e@),
        }
    }
}

/// The text that describes an engine error.
pub open spec fn engine_error_message(e: QwenEngineErrorView) -> Seq<char> {
    match e {
        QwenEngineErrorView::ModelNotFound(m) => "Model not found: "@ + m,
        QwenEngineErrorView::DownloadFailed(m) => "Download failed: "@ + m,
        QwenEngineErrorView::Io(m) => "IO error: "@ + m,
        QwenEngineErrorView::ModelError(e) => "Model error: "@ + error_message(e),
    }
}

impl QwenEngineError {
    /// The text that describes this error (what the error displays).
    pub fn message(&self) -> (r: String)
        ensures
            r@ == engine_error_message(self@),
    {
        match self {
            QwenEngineError::ModelNotFound(m) => String::from_str("Model not found: ").concat(m.as_str()),
            QwenEngineError::DownloadFailed(m) => String::from_str("Download failed: ").concat(m.as_str()),
            QwenEngineError::Io(m) => String::from_str("IO error: ").concat(m.as_str()),
            QwenEngineError::ModelError(e) => String::from_str("Model error: ").concat(e.message().as_str()),
        }
    }
}

/// The model error that an engine error converts to.
pub open spec fn engine_error_as_model_error(e: QwenEngineError) -> QwenError {
    match e {
        QwenEngineError::ModelNotFound(m) => QwenError::ModelNotFound(m),
        QwenEngineError::DownloadFailed(m) => QwenError::DownloadFailed(m),
        QwenEngineError::Io(m) => QwenError::Io(m),
        QwenEngineError::ModelError(e) => e,
    }
}

impl From<QwenEngineError> for QwenError {
    fn from(err: QwenEngineError) -> (r: QwenError) {
        match err {
            QwenEngineError::ModelNotFound(msg) => QwenError::ModelNotFound(msg),
            QwenEngineError::DownloadFailed(msg) => QwenError::DownloadFailed(msg),
            QwenEngineError::Io(msg) => QwenError::Io(msg),
            QwenEngineError::ModelError(err) => err,
        }
    }
}

impl vstd::std_specs::convert::FromSpecImpl<QwenEngineError> for QwenError {
    open spec fn obeys_from_spec() -> bool {
        true
    }

    open spec fn from_spec(v: QwenEngineError) -> QwenError {
        engine_error_as_model_error(v)
    }
}

// ---------------------------------------------------------------------------
// The catalog of known models
// ---------------------------------------------------------------------------

/// The number of models the engine knows.
pub const KNOWN_MODEL_COUNT: usize = 2;

/// The name of the `i`-th known model.
pub open spec fn known_name(i: int) -> Seq<char> {
    if i == 0 {
        "qwen3-asr-1.7b"@
    } else {
        "qwen3-asr-0.6b"@
    }
}

/// The download size in MB of the `i`-th known model.
pub open spec fn known_size_mb(i: int) -> u64 {
    if i == 0 {
        3200
    } else {
        1200
    }
}

/// The description of the `i`-th known model.
pub open spec fn known_description(i: int) -> Seq<char> {
    if i == 0 {
        "Qwen3-ASR 1.7B - 多语言高精度"@
    } else {
        "Qwen3-ASR 0.6B - 轻量高效"@
    }
}

/// The `i`-th known model: its name, size in MB and description.
pub fn known_model(i: usize) -> (r: (&'static str, u64, &'static str))
    requires
        i < KNOWN_MODEL_COUNT,
    ensures
        r.0@ == known_name(i as int),
        r.1 == known_size_mb(i as int),
        r.2@ == known_description(i as int),
{
    if i == 0 {
        ("qwen3-asr-1.7b", 3200, "Qwen3-ASR 1.7B - 多语言高精度")
    } else {
        ("qwen3-asr-0.6b", 1200, "Qwen3-ASR 0.6B - 轻量高效")
    }
}

/// The file whose presence, with both weight shards, marks a model as
/// available.
pub const CONFIG_FILE: &'static str = "config.json";

/// The first weight shard of a model.
pub const FIRST_SHARD_FILE: &'static str = "model-00001-of-00002.safetensors";

/// The second weight shard of a model.
pub const SECOND_SHARD_FILE: &'static str = "model-00002-of-00002.safetensors";

/// What was found for one known model: its directory (in displayed form)
/// and which of the directory, `CONFIG_FILE`, `FIRST_SHARD_FILE` and
/// `SECOND_SHARD_FILE` exist.
#[derive(Debug)]
pub struct ModelProbe {
    pub path: String,
    pub dir_exists: bool,
    pub config_exists: bool,
    pub first_shard_exists: bool,
    pub second_shard_exists: bool,
}

/// A model name that names a directory directly inside the models
/// directory: not empty, not `.` or `..`, and without a slash, a backslash
/// or a colon.
pub open spec fn is_plain_dir_name(name: Seq<char>) -> bool {
    &&& name.len() > 0
    &&& name != seq!['.']
    &&& name != seq!['.', '.']
    &&& forall|i: int| 0 <= i < name.len() ==> name[i] != '/' && name[i] != '\\' && name[i] != ':'
}

/// Whether `name` can be joined to the models directory to give one of its
/// own subdirectories (see `is_plain_dir_name`).
pub fn is_plain_model_name(name: &str) -> (b: bool)
    ensures
        b == is_plain_dir_name(name@),
{
    let v = chars_of(name);
    if v.len() == 0 {
        return false;
    }
    if v.len() <= 2 && v[0] == '.' && (v.len() == 1 || v[1] == '.') {
        assert(v@ =~= seq!['.'] || v@ =~= seq!['.', '.']);
        return false;
    }
    assert(v@ != seq!['.']) by {
        if v@ == seq!['.'] {
            assert(v@[0] == '.');
        }
    }
    assert(v@ != seq!['.', '.']) by {
        if v@ == seq!['.', '.'] {
            assert(v@[0] == '.' && v@[1] == '.');
        }
    }
    let mut i: usize = 0;
    while i < v.len()
        invariant
            i <= v.len(),
            v@ == name@,
            forall|j: int| 0 <= j < i ==> v@[j] != '/' && v@[j] != '\\' && v@[j] != ':',
        decreases v.len() - i,
    {
        let c = v[i];
        if c == '/' || c == '\\' || c == ':' {
            return false;
        }
        i = i + 1;
    }
    true
}

/// Whether a probe shows a complete model.
pub open spec fn probe_available(p: ModelProbe) -> bool {
    p.dir_exists && p.config_exists && p.first_shard_exists && p.second_shard_exists
}

/// The catalog entry of the `i`-th known model, given what was found for it.
pub open spec fn catalog_entry(i: int, p: ModelProbe) -> ModelInfoView {
    ModelInfoView {
        name: known_name(i),
        size_mb: known_size_mb(i),
        status: if probe_available(p) {
            ModelStatusView::Available
        } else {
            ModelStatusView::Missing
        },
        description: known_description(i),
        path: Some(p.path@),
    }
}

/// The catalog of known models, given what was found for each.
pub open spec fn catalog(probes: Seq<ModelProbe>) -> Seq<ModelInfoView> {
    Seq::new(probes.len(), |i: int| catalog_entry(i, probes[i]))
}

/// Builds the catalog entry of the `i`-th known model.
fn build_entry(i: usize, p: &ModelProbe) -> (r: CachedModelInfo)
    requires
        i < KNOWN_MODEL_COUNT,
    ensures
        r@ == catalog_entry(i as int, *p),
{
    let (name, size_mb, description) = known_model(i);
    let available = p.dir_exists && p.config_exists && p.first_shard_exists && p.second_shard_exists;
    let status = if available {
        ModelStatus::Available
    } else {
        ModelStatus::Missing
    };
    CachedModelInfo {
        name: String::from_str(name),
        size_mb,
        status,
        description: String::from_str(description),
        path: Some(p.path.clone()),
    }
}

/// Builds the catalog of known models from what was found for each of them.
pub fn build_catalog(probes: &Vec<ModelProbe>) -> (r: Vec<CachedModelInfo>)
    requires
        probes.len() == KNOWN_MODEL_COUNT,
    ensures
        r@.map_values(|m: CachedModelInfo| m@) == catalog(probes@),
{
    let mut r: Vec<CachedModelInfo> = Vec::new();
    for i in 0..probes.len()
        invariant
            probes.len() == KNOWN_MODEL_COUNT,
            r.len() == i,
            forall|j: int| 0 <= j < i ==> #[trigger] r@[j]@ == catalog_entry(j, probes@[j]),
    {
        r.push(build_entry(i, &probes[i]));
    }
    assert(r@.map_values(|m: CachedModelInfo| m@) =~= catalog(probes@));
    r
}

/// Discovers the known models without an engine, from what was found for
/// each of them in the models directory; `None` when the models directory
/// has not been configured.
pub fn discover_models_standalone(probes: Option<&Vec<ModelProbe>>) -> (r: Result<Vec<ModelInfo>, String>)
    requires
        probes matches Some(p) ==> p.len() == KNOWN_MODEL_COUNT,
    ensures
        match probes {
            None => r matches Err(e) && e@ == "Qwen models directory not initialized"@,
            Some(p) => r matches Ok(list) && list@.map_values(|m: ModelInfo| m@) == catalog(p@),
        },
{
    match probes {
        None => Err(String::from_str("Qwen models directory not initialized")),
        Some(p) => {
            let cached = build_catalog(p);
            let list = frontend_list(&cached);
            Ok(list)
        },
    }
}

/// The frontend form of a list of cached model entries.
fn frontend_list(models: &Vec<CachedModelInfo>) -> (r: Vec<ModelInfo>)
    ensures
        r@.map_values(|m: ModelInfo| m@) == models@.map_values(|m: CachedModelInfo| m@),
{
    let mut r: Vec<ModelInfo> = Vec::new();
    for i in 0..models.len()
        invariant
            r.len() == i,
            forall|j: int| 0 <= j < i ==> #[trigger] r@[j]@ == models@[j]@,
    {
        r.push(ModelInfo::from_cached(&models[i]));
    }
    assert(r@.map_values(|m: ModelInfo| m@) =~= models@.map_values(|m: CachedModelInfo| m@));
    r
}

// ---------------------------------------------------------------------------
// Lookups in the cached catalog
// ---------------------------------------------------------------------------

/// `models[i]` is named `name` and no entry before it is.
pub open spec fn is_first_named(models: Seq<ModelInfoView>, name: Seq<char>, i: int) -> bool {
    &&& 0 <= i < models.len()
    &&& models[i].name == name
    &&& forall|j: int| 0 <= j < i ==> models[j].name != name
}

/// The index of the first entry named `name`, if any.
pub open spec fn first_named(models: Seq<ModelInfoView>, name: Seq<char>) -> Option<int> {
    if exists|i: int| 0 <= i < models.len() && models[i].name == name {
        Some(choose|i: int| is_first_named(models, name, i))
    } else {
        None
    }
}

/// The first entry named `name` is unique.
proof fn lemma_first_named_is(models: Seq<ModelInfoView>, name: Seq<char>, i: int)
    requires
        is_first_named(models, name, i),
    ensures
        first_named(models, name) == Some(i),
{
    assert(models[i].name == name);
    let k = choose|k: int| is_first_named(models, name, k);
    assert(is_first_named(models, name, k));
    if k < i {
        assert(models[k].name != name);
    } else if i < k {
        assert(models[i].name != name);
    }
}

/// The catalog with the status of the first entry named `name` replaced by
/// `status` (unchanged when no entry has that name).
pub open spec fn with_status(models: Seq<ModelInfoView>, name: Seq<char>, status: ModelStatusView) -> Seq<ModelInfoView> {
    match first_named(models, name) {
        Some(i) => models.update(i, ModelInfoView { status: status, ..models[i] }),
        None => models,
    }
}

/// The abstract values of a list of cached model entries.
pub open spec fn entries_view(models: Seq<CachedModelInfo>) -> Seq<ModelInfoView> {
    models.map_values(|m: CachedModelInfo| m@)
}

/// The index of the first entry of `models` named `name`.
fn find_named(models: &Vec<CachedModelInfo>, name: &str) -> (r: Option<usize>)
    ensures
        match r {
            Some(i) => {
                &&& i < models.len()
                &&& is_first_named(entries_view(models@), name@, i as int)
                &&& first_named(entries_view(models@), name@) == Some(i as int)
            },
            None => first_named(entries_view(models@), name@) is None,
        },
{
    let ghost v = entries_view(models@);
    let target = String::from_str(name);
    for i in 0..models.len()
        invariant
            v == entries_view(models@),
            target@ == name@,
            forall|j: int| 0 <= j < i ==> v[j].name != name@,
    {
        if models[i].name == target {
            proof {
                lemma_first_named_is(v, name@, i as int);
            }
            return Some(i);
        }
    }
    None
}

/// The text with which the engine reports a status (what `{:?}` prints for
/// it).
pub open spec fn status_debug(s: ModelStatusView) -> Seq<char> {
    match s {
        ModelStatusView::Available => "Available"@,
        ModelStatusView::Missing => "Missing"@,
        ModelStatusView::Downloading { progress } => "Downloading { progress: "@ + decimal(progress as nat) + " }"@,
        ModelStatusView::Error { message } => "Error { message: "@ + str_debug(message) + " }"@,
        ModelStatusView::Corrupted { message } => "Corrupted { message: "@ + str_debug(message) + " }"@,
    }
}

/// The text with which the engine reports a status.
fn status_debug_text(s: &ModelStatus) -> (r: String)
    ensures
        r@ == status_debug(s@),
{
    match s {
        ModelStatus::Available => String::from_str("Available"),
        ModelStatus::Missing => String::from_str("Missing"),
        ModelStatus::Downloading { progress } => {
            let mut t = String::from_str("Downloading { progress: ");
            push_decimal(&mut t, *progress as u64);
            t.append(" }");
            t
        },
        ModelStatus::Error { message } => {
            let mut t = String::from_str("Error { message: ");
            t.append(str_debug_text(message.as_str()).as_str());
            t.append(" }");
            t
        },
        ModelStatus::Corrupted { message } => {
            let mut t = String::from_str("Corrupted { message: ");
            t.append(str_debug_text(message.as_str()).as_str());
            t.append(" }");
            t
        },
    }
}

// ---------------------------------------------------------------------------
// Laws of the catalog
// ---------------------------------------------------------------------------

/// Replacing a status keeps the names, the order and the length of the
/// catalog, so the same entry is found by name afterwards, now with the new
/// status.
pub proof fn lemma_with_status(models: Seq<ModelInfoView>, name: Seq<char>, status: ModelStatusView)
    ensures
        with_status(models, name, status).len() == models.len(),
        forall|k: int| 0 <= k < models.len() ==> #[trigger] with_status(models, name, status)[k].name
            == models[k].name,
        first_named(with_status(models, name, status), name) == first_named(models, name),
        first_named(models, name) matches Some(i) ==> with_status(models, name, status)[i] == (
        ModelInfoView { status: status, ..models[i] }),
{
    let m2 = with_status(models, name, status);
    if let Some(i) = first_named(models, name) {
        assert(is_first_named(models, name, i)) by {
            assert(exists|i: int| 0 <= i < models.len() && models[i].name == name);
            let w = choose|w: int| 0 <= w < models.len() && models[w].name == name;
            lemma_first_named_exists(models, name, w);
        }
        assert(is_first_named(m2, name, i));
        lemma_first_named_is(m2, name, i);
    } else {
        assert(m2 == models);
    }
}

/// When an entry has the name, a first such entry exists.
proof fn lemma_first_named_exists(models: Seq<ModelInfoView>, name: Seq<char>, k: int)
    requires
        0 <= k < models.len(),
        models[k].name == name,
    ensures
        exists|i: int| is_first_named(models, name, i),
    decreases k,
{
    if exists|j: int| 0 <= j < k && models[j].name == name {
        let j = choose|j: int| 0 <= j < k && models[j].name == name;
        lemma_first_named_exists(models, name, j);
    } else {
        assert(is_first_named(models, name, k));
    }
}

/// `first_named` gives the first entry with the name, and nothing when no
/// entry has it.
pub proof fn lemma_first_named(models: Seq<ModelInfoView>, name: Seq<char>)
    ensures
        first_named(models, name) matches Some(i) ==> is_first_named(models, name, i),
        first_named(models, name) is None <==> forall|k: int| 0 <= k < models.len() ==> models[k].name != name,
{
    if exists|i: int| 0 <= i < models.len() && models[i].name == name {
        let w = choose|w: int| 0 <= w < models.len() && models[w].name == name;
        lemma_first_named_exists(models, name, w);
    }
}

/// After discovery, the catalog lookup of `load_model` passes for a known
/// model found complete on disk, and refuses one found incomplete.
pub proof fn lemma_discovered_model_loadable(probes: Seq<ModelProbe>, i: int)
    requires
        probes.len() == KNOWN_MODEL_COUNT,
        0 <= i < KNOWN_MODEL_COUNT,
    ensures
        probe_available(probes[i]) <==> load_model_error(catalog(probes), known_name(i)) is None,
{
    reveal_strlit("qwen3-asr-1.7b");
    reveal_strlit("qwen3-asr-0.6b");
    let c = catalog(probes);
    assert(c[0].name == known_name(0));
    assert(c[1].name == known_name(1));
    assert(known_name(0)[10] != known_name(1)[10]);
    assert(is_first_named(c, known_name(i), i));
    lemma_first_named_is(c, known_name(i), i);
}

/// A known model that discovery reports `Available` can be loaded while its
/// directory stays as discovery found it: the catalog lookup passes and gives
/// the discovered directory, and the file checks before loading pass (the
/// backend's success then makes the model loaded, see `QwenModel::load`).
pub proof fn lemma_discovered_model_loads(probes: Seq<ModelProbe>, i: int, files: ModelFiles)
    requires
        probes.len() == KNOWN_MODEL_COUNT,
        0 <= i < KNOWN_MODEL_COUNT,
        probe_available(probes[i]),
        files.dir_exists == probes[i].dir_exists,
        files.config_exists == probes[i].config_exists,
    ensures
        load_model_error(catalog(probes), known_name(i)) is None,
        first_named(catalog(probes), known_name(i)) == Some(i),
        catalog(probes)[i].path == Some(probes[i].path@),
        model_files_error(probes[i].path@, files) is None,
{
    lemma_discovered_model_loadable(probes, i);
    reveal_strlit("qwen3-asr-1.7b");
    reveal_strlit("qwen3-asr-0.6b");
    let c = catalog(probes);
    assert(known_name(0)[10] != known_name(1)[10]);
    assert(is_first_named(c, known_name(i), i));
    lemma_first_named_is(c, known_name(i), i);
}

/// A download that ends successfully leaves its model loadable: the entry
/// is `Available`, so loading it can only fail for want of a path.
pub proof fn lemma_downloaded_model_loadable(models: Seq<ModelInfoView>, name: Seq<char>, step: DownloadStepView)
    requires
        first_named(models, name) is Some,
        step.report is None,
        step.action matches DownloadActionView::Finish { error: None, .. },
    ensures
        load_model_error(after_download_step(models, name, step), name) == (if models[first_named(
            models,
            name,
        )->0].path is None {
            Some(QwenErrorView::ModelNotFound("Model path not set"@))
        } else {
            None
        }),
{
    lemma_with_status(models, name, ModelStatusView::Available);
}

/// A model whose directory was removed is refused by loading: its entry is
/// `Missing`.
pub proof fn lemma_deleted_model_not_loadable(models: Seq<ModelInfoView>, name: Seq<char>)
    requires
        first_named(models, name) is Some,
    ensures
        load_model_error(with_status(models, name, ModelStatusView::Missing), name) == Some(
            QwenErrorView::ModelNotFound("Model '"@ + name + "' is not available. Current status: "@ + "Missing"@),
        ),
{
    lemma_with_status(models, name, ModelStatusView::Missing);
}

// ---------------------------------------------------------------------------
// The engine
// ---------------------------------------------------------------------------

/// What became of a model directory that was to be deleted.
#[derive(Debug)]
pub enum DirRemoval {
    /// The directory did not exist.
    Absent,
    /// The directory existed and was removed.
    Removed,
    /// The directory existed and removing it failed with this error text.
    Failed(String),
}

/// Qwen speech recognition engine: the models directory (in displayed form),
/// the currently loaded model, and the cached catalog of models.
pub struct QwenEngine {
    models_dir: String,
    current_model: Option<QwenModel>,
    available_models: Vec<CachedModelInfo>,
}

/// The abstract value of a [`QwenEngine`].
pub struct QwenEngineView {
    pub models_dir: Seq<char>,
    pub current: Option<QwenModelView>,
    pub models: Seq<ModelInfoView>,
}

/// The abstract value of the current model.
pub open spec fn current_view(m: Option<QwenModel>) -> Option<QwenModelView> {
    match m {
        Some(m) => Some(m@),
        None => None,
    }
}

impl View for QwenEngine {
    type V = QwenEngineView;

    closed spec fn view(&self) -> QwenEngineView {
        QwenEngineView {
            models_dir: self.models_dir@,
            current: current_view(self.current_model),
            models: entries_view(self.available_models@),
        }
    }
}

/// The catalog after a download step of the model `name`: a reported
/// progress becomes its `Downloading` status, a successful end makes it
/// `Available`, and a failed end makes it `Error` with the error's text.
pub open spec fn after_download_step(models: Seq<ModelInfoView>, name: Seq<char>, step: DownloadStepView) -> Seq<ModelInfoView> {
    match step.report {
        Some(p) => with_status(models, name, ModelStatusView::Downloading { progress: p }),
        None => match step.action {
            DownloadActionView::Finish { error: None, .. } => with_status(models, name, ModelStatusView::Available),
            DownloadActionView::Finish { error: Some(e), .. } => with_status(
                models,
                name,
                ModelStatusView::Error { message: error_message(e) },
            ),
            _ => models,
        },
    }
}

/// The message for a model that is not in the catalog.
pub open spec fn not_found_message(name: Seq<char>) -> Seq<char> {
    "Model '"@ + name + "' not found"@
}

/// The error, if any, that loading the model `name` meets in the catalog
/// `models`.
pub open spec fn load_model_error(models: Seq<ModelInfoView>, name: Seq<char>) -> Option<QwenErrorView> {
    match first_named(models, name) {
        None => Some(QwenErrorView::ModelNotFound(not_found_message(name))),
        Some(i) => if !(models[i].status is Available) {
            Some(
                QwenErrorView::ModelNotFound(
                    "Model '"@ + name + "' is not available. Current status: "@ + status_debug(
                        models[i].status,
                    ),
                ),
            )
        } else if models[i].path is None {
            Some(QwenErrorView::ModelNotFound("Model path not set"@))
        } else {
            None
        },
    }
}

/// Whether the engine reports a loaded model.
pub open spec fn model_loaded(e: QwenEngineView) -> bool {
    e.current matches Some(m) && m.loaded
}

/// The catalog lookup of loading passes only for a listed model whose
/// status is `Available` (and whose path is known); a listed model in any
/// other status (missing, downloading, in error, corrupted) is refused with
/// `ModelNotFound("Model '<name>' is not available. Current status: <status>")`.
pub proof fn lemma_load_needs_available(models: Seq<ModelInfoView>, name: Seq<char>)
    ensures
        load_model_error(models, name) is None ==> first_named(models, name) is Some,
        load_model_error(models, name) is None ==> models[first_named(models, name)->0].status
            == ModelStatusView::Available,
        load_model_error(models, name) is None ==> models[first_named(models, name)->0].path is Some,
        first_named(models, name) is Some && models[first_named(models, name)->0].status
            != ModelStatusView::Available ==> load_model_error(models, name) == Some(
            QwenErrorView::ModelNotFound(
                "Model '"@ + name + "' is not available. Current status: "@ + status_debug(
                    models[first_named(models, name)->0].status,
                ),
            ),
        ),
{
}

/// Once a loaded model is installed as the current one (only a loaded one
/// can be), the engine reports its name and reports a model loaded; once it
/// is unloaded, it reports neither a name nor a loaded model.
pub proof fn lemma_current_model(e: QwenEngineView, m: QwenModelView)
    requires
        m.loaded,
    ensures
        current_name(QwenEngineView { current: Some(m), ..e }) == Some(m.name),
        model_loaded(QwenEngineView { current: Some(m), ..e }),
        current_name(QwenEngineView { current: None, ..e }) is None,
        !model_loaded(QwenEngineView { current: None, ..e }),
{
}

/// The name of the current model, if any.
pub open spec fn current_name(e: QwenEngineView) -> Option<Seq<char>> {
    match e.current {
        Some(m) => Some(m.name),
        None => None,
    }
}

impl QwenEngine {
    /// A current model is always a loaded one.
    #[verifier::type_invariant]
    spec fn inv(self) -> bool {
        current_view(self.current_model) matches Some(m) ==> m.loaded
    }

    /// Create a new Qwen engine over the models directory `models_dir`
    /// (in displayed form), with no model loaded and an empty catalog.
    pub fn new(models_dir: String) -> (e: Self)
        ensures
            e@ == (QwenEngineView { models_dir: models_dir@, current: None, models: Seq::empty() }),
    {
        let e = QwenEngine { models_dir, current_model: None, available_models: Vec::new() };
        assert(entries_view(e.available_models@) =~= Seq::empty());
        e
    }

    /// The models directory (in displayed form).
    pub fn models_dir(&self) -> (s: &str)
        ensures
            s@ == self@.models_dir,
    {
        self.models_dir.as_str()
    }

    /// Discover the known models, from what was found for each of them in
    /// the models directory, and cache the result.
    pub fn discover_models(&mut self, probes: &Vec<ModelProbe>) -> (r: Result<Vec<ModelInfo>, QwenError>)
        requires
            probes.len() == KNOWN_MODEL_COUNT,
        ensures
            final(self)@ == (QwenEngineView { models: catalog(probes@), ..old(self)@ }),
            r matches Ok(list) && list@.map_values(|m: ModelInfo| m@) == catalog(probes@),
    {
        proof {
            use_type_invariant(&*self);
        }
        let models = build_catalog(probes);
        let list = frontend_list(&models);
        self.available_models = models;
        Ok(list)
    }

    /// The cached catalog, in frontend form.
    pub fn cached_models(&self) -> (r: Vec<ModelInfo>)
        ensures
            r@.map_values(|m: ModelInfo| m@) == self@.models,
    {
        frontend_list(&self.available_models)
    }

    /// Looks up the model `model_name` in the catalog for loading: it must be
    /// listed, available, and have a path. The result is the model instance
    /// to load (not yet loaded); once loaded it is installed with
    /// `set_current_model`.
    pub fn load_model(&self, model_name: &str) -> (r: Result<QwenModel, QwenError>)
        ensures
            err_view(r) == load_model_error(self@.models, model_name@),
            r matches Ok(m) ==> {
                &&& first_named(self@.models, model_name@) matches Some(i)
                &&& m@ == (QwenModelView { name: model_name@, path: self@.models[i].path->0, loaded: false })
            },
    {
        proof {
            use_type_invariant(self);
        }
        match find_named(&self.available_models, model_name) {
            None => {
                let mut msg = String::from_str("Model '");
                msg.append(model_name);
                msg.append("' not found");
                Err(QwenError::ModelNotFound(msg))
            },
            Some(i) => {
                let info = &self.available_models[i];
                assert(entries_view(self.available_models@)[i as int] == info@);
                if !info.status.is_available() {
                    let mut msg = String::from_str("Model '");
                    msg.append(model_name);
                    msg.append("' is not available. Current status: ");
                    let st = status_debug_text(&info.status);
                    msg.append(st.as_str());
                    return Err(QwenError::ModelNotFound(msg));
                }
                match &info.path {
                    None => Err(QwenError::ModelNotFound(String::from_str("Model path not set"))),
                    Some(path) => Ok(QwenModel::new(String::from_str(model_name), path.clone())),
                }
            },
        }
    }

    /// Makes the loaded `model` the current model.
    pub fn set_current_model(&mut self, model: QwenModel)
        requires
            model@.loaded,
        ensures
            final(self)@ == (QwenEngineView { current: Some(model@), ..old(self)@ }),
    {
        proof {
            use_type_invariant(&*self);
        }
        self.current_model = Some(model);
    }

    /// Checks a transcription request for `audio` against the current model;
    /// with no current model it is refused as `ModelNotLoaded`.
    pub fn transcribe<S>(&self, audio: &[S], language: Option<&str>) -> (r: Result<TranscriptionRequest, QwenError>)
        ensures
            err_view(r) == match self@.current {
                None => Some(QwenErrorView::ModelNotLoaded),
                Some(m) => transcribe_error(m.loaded, audio@.len()),
            },
            r matches Ok(req) ==> opt_view(req.language) == match language {
                Some(l) => Some(l@),
                None => None::<Seq<char>>,
            },
    {
        match &self.current_model {
            None => Err(QwenError::ModelNotLoaded),
            Some(m) => m.transcribe(audio, language),
        }
    }

    /// Get the currently loaded model name.
    pub fn get_current_model(&self) -> (r: Option<String>)
        ensures
            opt_view(r) == current_name(self@),
    {
        match &self.current_model {
            Some(m) => Some(String::from_str(m.name())),
            None => None,
        }
    }

    /// Check if a model is currently loaded: exactly when there is a
    /// current model.
    pub fn is_model_loaded(&self) -> (b: bool)
        ensures
            b == model_loaded(self@),
            b == (self@.current is Some),
    {
        proof {
            use_type_invariant(self);
        }
        match &self.current_model {
            Some(m) => m.is_loaded(),
            None => false,
        }
    }

    /// Unload the current model.
    pub fn unload_model(&mut self) -> (r: Result<(), QwenError>)
        ensures
            r is Ok,
            final(self)@ == (QwenEngineView { current: None, ..old(self)@ }),
    {
        proof {
            use_type_invariant(&*self);
        }
        self.current_model = None;
        Ok(())
    }

    /// Delete a model, given what became of its directory: when it was
    /// removed, its catalog entry becomes `Missing`; a failed removal is an
    /// I/O error and changes nothing. Otherwise the model is unloaded if it
    /// is the current one.
    pub fn delete_model(&mut self, model_name: &str, removal: DirRemoval) -> (r: Result<(), QwenError>)
        ensures
            match removal {
                DirRemoval::Failed(e) => err_view(r) == Some(QwenErrorView::Io(e@)) && final(self)@ == old(self)@,
                _ => {
                    &&& r is Ok
                    &&& final(self)@.models_dir == old(self)@.models_dir
                    &&& final(self)@.models == if removal is Removed {
                        with_status(old(self)@.models, model_name@, ModelStatusView::Missing)
                    } else {
                        old(self)@.models
                    }
                    &&& final(self)@.current == if current_name(old(self)@) == Some(model_name@) {
                        None
                    } else {
                        old(self)@.current
                    }
                },
            },
    {
        match removal {
            DirRemoval::Failed(e) => {
                return Err(QwenError::Io(e));
            },
            DirRemoval::Removed => {
                self.set_status(model_name, ModelStatus::Missing);
            },
            DirRemoval::Absent => {},
        }
        let current = self.get_current_model();
        let is_current = match current {
            Some(n) => n == String::from_str(model_name),
            None => false,
        };
        if is_current {
            self.unload_model()?;
        }
        Ok(())
    }

    /// Starts the download of the model `model_name`, which must be in the
    /// catalog; its status becomes `Downloading` at 0%. The result is the job
    /// and its first step (creating the model directory); the caller performs
    /// each action and hands what happened to `download_step`.
    pub fn download_model(&mut self, model_name: &str, has_callback: bool) -> (r: Result<(DownloadJob, DownloadStep), QwenError>)
        ensures
            match first_named(old(self)@.models, model_name@) {
                None => {
                    &&& err_view(r) == Some(QwenErrorView::ModelNotFound(not_found_message(model_name@)))
                    &&& final(self)@ == old(self)@
                },
                Some(_) => {
                    &&& r matches Ok((job, step)) && job.wf() && job@ == (DownloadJobView {
                        model_name: model_name@,
                        repo: Seq::empty(),
                        has_callback,
                        file: 0,
                        total_weight: weight_sum(REQUIRED_FILE_COUNT as nat),
                        completed_weight: 0,
                        completed_files: 0,
                        last_error: None,
                        stage: DownloadStage::CreatingDir,
                    }) && step@ == (DownloadStepView { report: None, action: DownloadActionView::CreateDir })
                    &&& final(self)@ == (QwenEngineView {
                        models: with_status(old(self)@.models, model_name@, ModelStatusView::Downloading { progress: 0 }),
                        ..old(self)@
                    })
                },
            },
    {
        match find_named(&self.available_models, model_name) {
            None => {
                let mut msg = String::from_str("Model '");
                msg.append(model_name);
                msg.append("' not found");
                Err(QwenError::from(QwenEngineError::ModelNotFound(msg)))
            },
            Some(_) => {
                self.set_status(model_name, ModelStatus::Downloading { progress: 0 });
                Ok(DownloadJob::new(model_name, has_callback))
            },
        }
    }

    /// Hands the event that answers the last action of `job` to it, and
    /// records the progress it reports, or the end of a successful download,
    /// in the model's status.
    pub fn download_step(&mut self, job: &mut DownloadJob, event: DownloadEvent) -> (s: DownloadStep)
        requires
            old(job).wf(),
            accepts(old(job)@.stage, event@),
        ensures
            (final(job)@, s@) == transition(old(job)@, event@),
            final(job).wf(),
            final(self)@ == (QwenEngineView {
                models: after_download_step(old(self)@.models, old(job)@.model_name, s@),
                ..old(self)@
            }),
    {
        let s = job.step(event);
        match s.report {
            Some(p) => {
                self.set_status(job.model_name(), ModelStatus::Downloading { progress: p });
            },
            None => {
                match &s.action {
                    crate::download::DownloadAction::Finish { result: Ok(()), .. } => {
                        self.set_status(job.model_name(), ModelStatus::Available);
                    },
                    crate::download::DownloadAction::Finish { result: Err(e), .. } => {
                        self.set_status(job.model_name(), ModelStatus::Error { message: e.message() });
                    },
                    _ => {},
                }
            },
        }
        s
    }

    /// Sets the status of the first catalog entry named `name`.
    fn set_status(&mut self, name: &str, status: ModelStatus)
        ensures
            final(self)@ == (QwenEngineView {
                models: with_status(old(self)@.models, name@, status@),
                ..old(self)@
            }),
    {
        proof {
            use_type_invariant(&*self);
        }
        match find_named(&self.available_models, name) {
            None => {},
            Some(i) => {
                let ghost old_models = entries_view(self.available_models@);
                let mut models: Vec<CachedModelInfo> = Vec::new();
                for j in 0..self.available_models.len()
                    invariant
                        old_models == entries_view(self.available_models@),
                        0 <= i < old_models.len(),
                        models.len() == j,
                        forall|k: int| 0 <= k < j ==> #[trigger] models@[k]@ == (if k == i {
                            ModelInfoView { status: status@, ..old_models[k] }
                        } else {
                            old_models[k]
                        }),
                {
                    let old_info = &self.available_models[j];
                    let st = if j == i {
                        status.clone()
                    } else {
                        old_info.status.clone()
                    };
                    models.push(CachedModelInfo {
                        name: old_info.name.clone(),
                        size_mb: old_info.size_mb,
                        status: st,
                        description: old_info.description.clone(),
                        path: clone_opt(&old_info.path),
                    });
                }
                let ghost new_models = old_models.update(i as int, ModelInfoView { status: status@, ..old_models[i as int] });
                assert(entries_view(models@) =~= new_models);
                self.available_models = models;
            },
        }
    }
}

} // verus!
