//! The decisions of a model download, as a state machine: the caller performs
//! each action (creating the directory, probing a file, an HTTP request,
//! reading and writing the body) and hands back what happened; the job
//! decides what comes next, which progress to report, and how it ends.
use vstd::prelude::*;
use crate::model::{QwenError, QwenErrorView, opt_view};
use crate::engine::QwenEngineError;
use crate::text::{chars_of, ends_with, ends_with_in, starts_with};

verus! {

// ---------------------------------------------------------------------------
// Files, sources and weights
// ---------------------------------------------------------------------------

/// The number of files a model needs.
pub const REQUIRED_FILE_COUNT: usize = 10;

/// The number of files fetched when the host has them.
pub const OPTIONAL_FILE_COUNT: usize = 1;

/// The number of download sources, tried in order.
pub const SOURCE_COUNT: usize = 2;

/// The `i`-th file a model needs.
pub open spec fn required_file(i: int) -> Seq<char> {
    if i == 0 {
        "config.json"@
    } else if i == 1 {
        "tokenizer_config.json"@
    } else if i == 2 {
        "vocab.json"@
    } else if i == 3 {
        "merges.txt"@
    } else if i == 4 {
        "generation_config.json"@
    } else if i == 5 {
        "preprocessor_config.json"@
    } else if i == 6 {
        "chat_template.json"@
    } else if i == 7 {
        "model.safetensors.index.json"@
    } else if i == 8 {
        "model-00001-of-00002.safetensors"@
    } else {
        "model-00002-of-00002.safetensors"@
    }
}

/// The `i`-th file a model needs.
pub fn required_file_name(i: usize) -> (r: &'static str)
    requires
        i < REQUIRED_FILE_COUNT,
    ensures
        r@ == required_file(i as int),
{
    if i == 0 {
        "config.json"
    } else if i == 1 {
        "tokenizer_config.json"
    } else if i == 2 {
        "vocab.json"
    } else if i == 3 {
        "merges.txt"
    } else if i == 4 {
        "generation_config.json"
    } else if i == 5 {
        "preprocessor_config.json"
    } else if i == 6 {
        "chat_template.json"
    } else if i == 7 {
        "model.safetensors.index.json"
    } else if i == 8 {
        "model-00001-of-00002.safetensors"
    } else {
        "model-00002-of-00002.safetensors"
    }
}

/// The `i`-th optional file.
pub open spec fn optional_file(i: int) -> Seq<char> {
    "tokenizer.json"@
}

/// The `i`-th optional file.
pub fn optional_file_name(i: usize) -> (r: &'static str)
    requires
        i < OPTIONAL_FILE_COUNT,
    ensures
        r@ == optional_file(i as int),
{
    "tokenizer.json"
}

/// The base address of the `s`-th download source.
pub open spec fn source_base(s: int) -> Seq<char> {
    if s == 0 {
        "https://hf-mirror.com"@
    } else {
        "https://huggingface.co"@
    }
}

/// The base address of the `s`-th download source.
fn source_base_name(s: usize) -> (r: &'static str)
    requires
        s < SOURCE_COUNT,
    ensures
        r@ == source_base(s as int),
{
    if s == 0 {
        "https://hf-mirror.com"
    } else {
        "https://huggingface.co"
    }
}

/// The repository that holds the model `name`, for the known models.
pub open spec fn repo_for(name: Seq<char>) -> Option<Seq<char>> {
    if name == "qwen3-asr-1.7b"@ {
        Some("Qwen/Qwen3-ASR-1.7B"@)
    } else if name == "qwen3-asr-0.6b"@ {
        Some("Qwen/Qwen3-ASR-0.6B"@)
    } else {
        None
    }
}

/// The repository that holds the model `name`, for the known models.
pub fn repo_name(name: &str) -> (r: Option<&'static str>)
    ensures
        match r {
            Some(s) => repo_for(name@) == Some(s@),
            None => repo_for(name@) is None,
        },
{
    let n = String::from_str(name);
    if n == String::from_str("qwen3-asr-1.7b") {
        Some("Qwen/Qwen3-ASR-1.7B")
    } else if n == String::from_str("qwen3-asr-0.6b") {
        Some("Qwen/Qwen3-ASR-0.6B")
    } else {
        None
    }
}

/// The address of `file` of `repo` at the source whose base is `base`.
pub open spec fn file_url(base: Seq<char>, repo: Seq<char>, file: Seq<char>) -> Seq<char> {
    base + "/"@ + repo + "/resolve/main/"@ + file
}

/// The address of the optional `file` of `repo`.
pub open spec fn optional_url(repo: Seq<char>, file: Seq<char>) -> Seq<char> {
    "https://huggingface.co/"@ + repo + "/resolve/main/"@ + file
}

/// The extension of a weights shard.
pub open spec fn safetensors_extension() -> Seq<char> {
    seq!['.', 's', 'a', 'f', 'e', 't', 'e', 'n', 's', 'o', 'r', 's']
}

/// A weights shard: its name ends with `.safetensors` (the shard index,
/// `model.safetensors.index.json`, is not one).
pub open spec fn is_weights_file(f: Seq<char>) -> bool {
    ends_with(f, safetensors_extension())
}

/// The share of a file in the download, in quarter percent: each of the two
/// weights shards counts for 45%, each of the eight other files for 1.25%.
pub open spec fn file_weight(f: Seq<char>) -> nat {
    if is_weights_file(f) {
        180
    } else {
        5
    }
}

/// The total share of the first `n` required files, in quarter percent.
pub open spec fn weight_sum(n: nat) -> nat
    decreases n,
{
    if n == 0 {
        0
    } else {
        weight_sum((n - 1) as nat) + file_weight(required_file(n - 1))
    }
}

/// A file already on disk with `size` bytes can be kept: a weights file
/// needs more than 100 MB, any other file only some content.
pub open spec fn valid_existing(f: Seq<char>, size: u64) -> bool {
    if is_weights_file(f) {
        size > 100_000_000
    } else {
        size > 0
    }
}

/// `x` converted to a byte, saturating at 255.
pub open spec fn saturate_u8(x: nat) -> u8 {
    if x > 255 {
        255
    } else {
        x as u8
    }
}

/// The percentage reached when a share `done` of `total` is complete.
pub open spec fn percent(done: nat, total: nat) -> u8 {
    saturate_u8(done * 100 / total)
}

/// The percentage reached while a file of share `w` and size `size` bytes is
/// being received, `received` bytes in, after a share `done` of `total`.
pub open spec fn stream_percent(done: nat, w: nat, total: nat, received: nat, size: nat) -> u8 {
    saturate_u8((done * size + received * w) * 100 / (size * total))
}

/// The size from which a file's download reports its progress as it goes.
pub const LARGE_FILE_BYTES: u64 = 100_000_000;

/// The timeout of a request for a required file, in seconds.
pub const REQUIRED_TIMEOUT_SECS: u64 = 3600;

/// The timeout of a request for an optional file, in seconds.
pub const OPTIONAL_TIMEOUT_SECS: u64 = 60;

/// Weights are positive and at most 180.
proof fn lemma_weight_sum_bounds(n: nat)
    ensures
        5 * n <= weight_sum(n) <= 180 * n,
    decreases n,
{
    if n > 0 {
        lemma_weight_sum_bounds((n - 1) as nat);
    }
}

/// Weight sums grow with the number of files.
pub proof fn lemma_weight_sum_monotone(m: nat, n: nat)
    requires
        m <= n,
    ensures
        weight_sum(m) <= weight_sum(n),
    decreases n,
{
    if m < n {
        lemma_weight_sum_monotone(m, (n - 1) as nat);
    }
}

/// The share of `name`, in quarter percent.
pub fn file_weight_of(name: &str) -> (w: u64)
    ensures
        w == file_weight(name@),
{
    let v = chars_of(name);
    let pat = vec!['.', 's', 'a', 'f', 'e', 't', 'e', 'n', 's', 'o', 'r', 's'];
    assert(pat@ == safetensors_extension());
    assert(v@.subrange(0, v.len() as int) =~= v@);
    if ends_with_in(&v, 0, v.len(), &pat) {
        180
    } else {
        5
    }
}

/// The total share of the required files, in quarter percent.
fn total_weight() -> (t: u64)
    ensures
        t == weight_sum(REQUIRED_FILE_COUNT as nat),
{
    let mut t: u64 = 0;
    for i in 0..REQUIRED_FILE_COUNT
        invariant
            t == weight_sum(i as nat),
    {
        proof {
            lemma_weight_sum_bounds(i as nat);
        }
        t = t + file_weight_of(required_file_name(i));
    }
    t
}

// ---------------------------------------------------------------------------
// Events, actions and the job
// ---------------------------------------------------------------------------

/// What was found for a file on disk.
#[derive(Debug)]
pub enum FileProbe {
    /// The file does not exist.
    Missing,
    /// The file exists, with this size in bytes (0 when the size was not asked).
    Present(u64),
    /// The file exists but reading its size failed with this error text.
    Unreadable(String),
}

/// How a download request was answered.
#[derive(Debug)]
pub enum HttpReply {
    /// The HTTP client could not be built (error text).
    ClientFailed(String),
    /// The server answered with a status (its text, e.g. `404 Not Found`),
    /// whether it is a success, and the announced body length.
    Status { success: bool, status_text: String, content_length: Option<u64> },
    /// The request failed before an answer (error text).
    NetworkFailed(String),
}

/// What happened when the last action was performed.
#[derive(Debug)]
pub enum DownloadEvent {
    /// The model directory was created, or not (error text).
    DirCreated(Result<(), String>),
    /// A file was probed; `cancelled` tells whether the download has been
    /// cancelled by then.
    Probed { probe: FileProbe, cancelled: bool },
    /// A request was answered.
    Replied(HttpReply),
    /// The target file was created, or not (error text).
    FileCreated(Result<(), String>),
    /// The next piece of the body: `None` at its end, else a chunk of that
    /// many bytes or an error text; `cancelled` tells whether the download
    /// has been cancelled by then.
    ChunkRead { cancelled: bool, chunk: Option<Result<u64, String>> },
    /// The chunk was written to the file, or not (error text).
    ChunkWritten(Result<(), String>),
}

/// What the caller does next.
#[derive(Debug)]
pub enum DownloadAction {
    /// Create the model directory (with its parents).
    CreateDir,
    /// Probe `file` in the model directory: whether it exists, and its size
    /// when `with_size`.
    Probe { file: String, with_size: bool },
    /// Send a GET request to `url` with a client of this timeout, with the
    /// bearer token of the environment when `use_token`.
    Request { url: String, use_token: bool, timeout_secs: u64 },
    /// Create (or truncate) `file` in the model directory for the body.
    CreateFile { file: String },
    /// Read the next piece of the body.
    ReadChunk,
    /// Write the piece just read to the file.
    WriteChunk,
    /// Stop: first remove the partial file `remove_partial`, if any, then
    /// end with `result`.
    Finish { remove_partial: Option<String>, result: Result<(), QwenError> },
}

/// The result of one step: the progress to report (to the progress callback
/// and in the model's status), if any, and the next action.
#[derive(Debug)]
pub struct DownloadStep {
    pub report: Option<u8>,
    pub action: DownloadAction,
}

/// Where a download job stands.
#[derive(Debug, Clone, Copy)]
pub enum DownloadStage {
    /// Waiting for the model directory to be created.
    CreatingDir,
    /// Waiting for the probe of the current required file.
    ProbingRequired,
    /// Waiting for the answer of source `source` for the current file.
    Requesting { source: usize },
    /// Waiting for the current file to be created.
    CreatingFile { total_size: u64 },
    /// Waiting for the next piece of the body.
    Reading { total_size: u64, downloaded: u64 },
    /// Waiting for a chunk of `chunk` bytes to be written.
    Writing { total_size: u64, downloaded: u64, chunk: u64 },
    /// Waiting for the probe of the file just downloaded.
    Verifying,
    /// Waiting for the probe of the current optional file.
    ProbingOptional,
    /// Waiting for the answer for the current optional file.
    RequestingOptional,
    /// Waiting for the current optional file to be created.
    CreatingOptional,
    /// Waiting for the next piece of an optional file's body.
    ReadingOptional,
    /// Waiting for a chunk of an optional file to be written.
    WritingOptional,
    /// The job has ended.
    Finished,
}

/// A model download in progress.
#[derive(Debug)]
pub struct DownloadJob {
    model_name: String,
    repo: String,
    has_callback: bool,
    file: usize,
    total_weight: u64,
    completed_weight: u64,
    completed_files: usize,
    last_error: Option<String>,
    stage: DownloadStage,
}

/// The abstract value of a [`DownloadJob`].
pub struct DownloadJobView {
    pub model_name: Seq<char>,
    pub repo: Seq<char>,
    pub has_callback: bool,
    pub file: nat,
    pub total_weight: nat,
    pub completed_weight: nat,
    pub completed_files: nat,
    pub last_error: Option<Seq<char>>,
    pub stage: DownloadStage,
}

impl View for DownloadJob {
    type V = DownloadJobView;

    closed spec fn view(&self) -> DownloadJobView {
        DownloadJobView {
            model_name: self.model_name@,
            repo: self.repo@,
            has_callback: self.has_callback,
            file: self.file as nat,
            total_weight: self.total_weight as nat,
            completed_weight: self.completed_weight as nat,
            completed_files: self.completed_files as nat,
            last_error: opt_view(self.last_error),
            stage: self.stage,
        }
    }
}

/// The abstract value of a [`FileProbe`].
pub enum FileProbeView {
    Missing,
    Present(u64),
    Unreadable(Seq<char>),
}

/// The abstract value of an [`HttpReply`].
pub enum HttpReplyView {
    ClientFailed(Seq<char>),
    Status { success: bool, status_text: Seq<char>, content_length: Option<u64> },
    NetworkFailed(Seq<char>),
}

/// The abstract value of a [`DownloadEvent`].
pub enum DownloadEventView {
    DirCreated(Option<Seq<char>>),
    Probed { probe: FileProbeView, cancelled: bool },
    Replied(HttpReplyView),
    FileCreated(Option<Seq<char>>),
    ChunkRead { cancelled: bool, chunk: Option<Result<u64, Seq<char>>> },
    ChunkWritten(Option<Seq<char>>),
}

/// The abstract value of a [`DownloadAction`].
pub enum DownloadActionView {
    CreateDir,
    Probe { file: Seq<char>, with_size: bool },
    Request { url: Seq<char>, use_token: bool, timeout_secs: u64 },
    CreateFile { file: Seq<char> },
    ReadChunk,
    WriteChunk,
    Finish { remove_partial: Option<Seq<char>>, error: Option<QwenErrorView> },
}

/// The abstract value of a [`DownloadStep`].
pub struct DownloadStepView {
    pub report: Option<u8>,
    pub action: DownloadActionView,
}

/// The error text of an outcome, if it failed.
pub open spec fn failure(r: Result<(), String>) -> Option<Seq<char>> {
    match r {
        Ok(()) => None,
        Err(e) => Some(e@),
    }
}

impl View for FileProbe {
    type V = FileProbeView;

    open spec fn view(&self) -> FileProbeView {
        match self {
            FileProbe::Missing => FileProbeView::Missing,
            FileProbe::Present(n) => FileProbeView::Present(*n),
            FileProbe::Unreadable(e) => FileProbeView::Unreadable(e@),
        }
    }
}

impl View for HttpReply {
    type V = HttpReplyView;

    open spec fn view(&self) -> HttpReplyView {
        match self {
            HttpReply::ClientFailed(e) => HttpReplyView::ClientFailed(e@),
            HttpReply::Status { success, status_text, content_length } => HttpReplyView::Status {
                success: *success,
                status_text: status_text@,
                content_length: *content_length,
            },
            HttpReply::NetworkFailed(e) => HttpReplyView::NetworkFailed(e@),
        }
    }
}

impl View for DownloadEvent {
    type V = DownloadEventView;

    open spec fn view(&self) -> DownloadEventView {
        match self {
            DownloadEvent::DirCreated(r) => DownloadEventView::DirCreated(failure(*r)),
            DownloadEvent::Probed { probe, cancelled } => DownloadEventView::Probed {
                probe: probe@,
                cancelled: *cancelled,
            },
            DownloadEvent::Replied(r) => DownloadEventView::Replied(r@),
            DownloadEvent::FileCreated(r) => DownloadEventView::FileCreated(failure(*r)),
            DownloadEvent::ChunkRead { cancelled, chunk } => DownloadEventView::ChunkRead {
                cancelled: *cancelled,
                chunk: match chunk {
                    None => None,
                    Some(Ok(n)) => Some(Ok(*n)),
                    Some(Err(e)) => Some(Err(e@)),
                },
            },
            DownloadEvent::ChunkWritten(r) => DownloadEventView::ChunkWritten(failure(*r)),
        }
    }
}

impl View for DownloadAction {
    type V = DownloadActionView;

    open spec fn view(&self) -> DownloadActionView {
        match self {
            DownloadAction::CreateDir => DownloadActionView::CreateDir,
            DownloadAction::Probe { file, with_size } => DownloadActionView::Probe {
                file: file@,
                with_size: *with_size,
            },
            DownloadAction::Request { url, use_token, timeout_secs } => DownloadActionView::Request {
                url: url@,
                use_token: *use_token,
                timeout_secs: *timeout_secs,
            },
            DownloadAction::CreateFile { file } => DownloadActionView::CreateFile { file: file@ },
            DownloadAction::ReadChunk => DownloadActionView::ReadChunk,
            DownloadAction::WriteChunk => DownloadActionView::WriteChunk,
            DownloadAction::Finish { remove_partial, result } => DownloadActionView::Finish {
                remove_partial: opt_view(*remove_partial),
                error: match result {
                    Ok(()) => None,
                    Err(e) => Some(e@),
                },
            },
        }
    }
}

impl View for DownloadStep {
    type V = DownloadStepView;

    open spec fn view(&self) -> DownloadStepView {
        DownloadStepView { report: self.report, action: self.action@ }
    }
}

// ---------------------------------------------------------------------------
// The transition relation
// ---------------------------------------------------------------------------

/// The stage accepts the event: the event answers the stage's action.
pub open spec fn accepts(stage: DownloadStage, e: DownloadEventView) -> bool {
    match stage {
        DownloadStage::CreatingDir => e is DirCreated,
        DownloadStage::ProbingRequired | DownloadStage::Verifying | DownloadStage::ProbingOptional => e is Probed,
        DownloadStage::Requesting { .. } | DownloadStage::RequestingOptional => e is Replied,
        DownloadStage::CreatingFile { .. } | DownloadStage::CreatingOptional => e is FileCreated,
        DownloadStage::Reading { .. } | DownloadStage::ReadingOptional => e is ChunkRead,
        DownloadStage::Writing { .. } | DownloadStage::WritingOptional => e is ChunkWritten,
        DownloadStage::Finished => false,
    }
}

/// The job's bookkeeping is consistent with its stage.
pub open spec fn job_wf(j: DownloadJobView) -> bool {
    &&& j.total_weight == weight_sum(REQUIRED_FILE_COUNT as nat)
    &&& j.completed_weight <= j.total_weight
    &&& j.completed_files <= REQUIRED_FILE_COUNT
    &&& match j.stage {
        DownloadStage::CreatingDir => j.file == 0 && j.completed_weight == 0 && j.completed_files == 0,
        DownloadStage::ProbingRequired
        | DownloadStage::CreatingFile { .. }
        | DownloadStage::Reading { .. }
        | DownloadStage::Writing { .. } => {
            &&& j.file < REQUIRED_FILE_COUNT
            &&& j.completed_weight == weight_sum(j.file)
            &&& j.completed_files == j.file
        },
        DownloadStage::Requesting { source } => {
            &&& j.file < REQUIRED_FILE_COUNT
            &&& j.completed_weight == weight_sum(j.file)
            &&& j.completed_files == j.file
            &&& source < SOURCE_COUNT
        },
        DownloadStage::Verifying => {
            &&& j.file < REQUIRED_FILE_COUNT
            &&& j.completed_weight == weight_sum(j.file + 1)
            &&& j.completed_files == j.file + 1
        },
        DownloadStage::ProbingOptional
        | DownloadStage::RequestingOptional
        | DownloadStage::CreatingOptional
        | DownloadStage::ReadingOptional
        | DownloadStage::WritingOptional => {
            &&& j.file < OPTIONAL_FILE_COUNT
            &&& j.completed_weight == weight_sum(REQUIRED_FILE_COUNT as nat)
            &&& j.completed_files == REQUIRED_FILE_COUNT
        },
        DownloadStage::Finished => true,
    }
}

/// Ending the job with `error` (after removing `remove_partial`).
pub open spec fn finish(j: DownloadJobView, remove_partial: Option<Seq<char>>, error: Option<QwenErrorView>) -> (DownloadJobView, DownloadStepView) {
    (
        DownloadJobView { stage: DownloadStage::Finished, ..j },
        DownloadStepView { report: None, action: DownloadActionView::Finish { remove_partial, error } },
    )
}

/// Ending the job with a download failure described by `msg`.
pub open spec fn fail(j: DownloadJobView, msg: Seq<char>) -> (DownloadJobView, DownloadStepView) {
    finish(j, None, Some(QwenErrorView::DownloadFailed(msg)))
}

/// Moving on after required file `j.file`, reporting `report`: to the next
/// required file, or to the optional files after the last one.
pub open spec fn next_required(j: DownloadJobView, report: Option<u8>) -> (DownloadJobView, DownloadStepView) {
    if j.file + 1 < REQUIRED_FILE_COUNT {
        (
            DownloadJobView { file: j.file + 1, stage: DownloadStage::ProbingRequired, ..j },
            DownloadStepView {
                report,
                action: DownloadActionView::Probe { file: required_file(j.file + 1 as int), with_size: true },
            },
        )
    } else {
        (
            DownloadJobView { file: 0, stage: DownloadStage::ProbingOptional, ..j },
            DownloadStepView {
                report,
                action: DownloadActionView::Probe { file: optional_file(0), with_size: false },
            },
        )
    }
}

/// Moving on after optional file `j.file`: to the next one, or to the end of
/// a successful download.
pub open spec fn next_optional(j: DownloadJobView) -> (DownloadJobView, DownloadStepView) {
    if j.file + 1 < OPTIONAL_FILE_COUNT {
        (
            DownloadJobView { file: j.file + 1, stage: DownloadStage::ProbingOptional, ..j },
            DownloadStepView {
                report: None,
                action: DownloadActionView::Probe { file: optional_file(j.file + 1 as int), with_size: false },
            },
        )
    } else {
        finish(j, None, None)
    }
}

/// The request for the current required file to source `source`.
pub open spec fn request_required(j: DownloadJobView, source: nat) -> (DownloadJobView, DownloadStepView) {
    (
        DownloadJobView { stage: DownloadStage::Requesting { source: source as usize }, ..j },
        DownloadStepView {
            report: None,
            action: DownloadActionView::Request {
                url: file_url(source_base(source as int), j.repo, required_file(j.file as int)),
                use_token: source == 1,
                timeout_secs: REQUIRED_TIMEOUT_SECS,
            },
        },
    )
}

/// Trying the next source after source `source` failed with `error`, or
/// giving up after the last one.
pub open spec fn next_source(j: DownloadJobView, source: nat, error: Seq<char>) -> (DownloadJobView, DownloadStepView) {
    let j2 = DownloadJobView { last_error: Some(error), ..j };
    if source + 1 < SOURCE_COUNT {
        request_required(j2, source + 1)
    } else {
        fail(
            j2,
            "Failed to download "@ + required_file(j.file as int) + " from all sources. Last error: "@ + error,
        )
    }
}

/// The progress to report after required file `j.file` was found complete
/// on disk, if a callback listens.
pub open spec fn existing_report(j: DownloadJobView, cw: nat) -> Option<u8> {
    if j.has_callback {
        Some(percent(cw, j.total_weight))
    } else {
        None
    }
}

/// The next state and step of a job in stage `j.stage` on the event `e`
/// that answers its last action.
pub open spec fn transition(j: DownloadJobView, e: DownloadEventView) -> (DownloadJobView, DownloadStepView) {
    let file = required_file(j.file as int);
    let opt = optional_file(j.file as int);
    match (j.stage, e) {
        (DownloadStage::CreatingDir, DownloadEventView::DirCreated(r)) => match r {
            Some(err) => fail(j, "Failed to create directory: "@ + err),
            None => match repo_for(j.model_name) {
                None => finish(j, None, Some(QwenErrorView::ModelNotFound("Unknown model: "@ + j.model_name))),
                Some(repo) => (
                    DownloadJobView { repo: repo, file: 0, stage: DownloadStage::ProbingRequired, ..j },
                    DownloadStepView {
                        report: None,
                        action: DownloadActionView::Probe { file: required_file(0), with_size: true },
                    },
                ),
            },
        },
        (DownloadStage::ProbingRequired, DownloadEventView::Probed { probe, cancelled }) => match probe {
            FileProbeView::Unreadable(err) => fail(j, "Failed to check file: "@ + err),
            FileProbeView::Present(size) if valid_existing(file, size) => {
                let cw = j.completed_weight + file_weight(file);
                next_required(
                    DownloadJobView { completed_weight: cw, completed_files: j.completed_files + 1, ..j },
                    existing_report(j, cw),
                )
            },
            _ => if cancelled {
                fail(j, "Download cancelled"@)
            } else {
                request_required(DownloadJobView { last_error: None, ..j }, 0)
            },
        },
        (DownloadStage::Requesting { source }, DownloadEventView::Replied(reply)) => match reply {
            HttpReplyView::ClientFailed(err) => fail(j, "Failed to create HTTP client: "@ + err),
            HttpReplyView::Status { success, status_text, content_length } => if success {
                (
                    DownloadJobView {
                        stage: DownloadStage::CreatingFile {
                            total_size: match content_length {
                                Some(n) => n,
                                None => 0,
                            },
                        },
                        ..j
                    },
                    DownloadStepView { report: None, action: DownloadActionView::CreateFile { file } },
                )
            } else {
                next_source(j, source as nat, "HTTP "@ + status_text)
            },
            HttpReplyView::NetworkFailed(err) => next_source(j, source as nat, "Network error: "@ + err),
        },
        (DownloadStage::CreatingFile { total_size }, DownloadEventView::FileCreated(r)) => match r {
            Some(err) => fail(j, "Failed to create file "@ + file + ": "@ + err),
            None => (
                DownloadJobView { stage: DownloadStage::Reading { total_size, downloaded: 0 }, ..j },
                DownloadStepView { report: None, action: DownloadActionView::ReadChunk },
            ),
        },
        (DownloadStage::Reading { total_size, downloaded }, DownloadEventView::ChunkRead { cancelled, chunk }) => match chunk {
            None => (
                DownloadJobView {
                    completed_weight: j.completed_weight + file_weight(file),
                    completed_files: j.completed_files + 1,
                    stage: DownloadStage::Verifying,
                    ..j
                },
                DownloadStepView { report: None, action: DownloadActionView::Probe { file, with_size: true } },
            ),
            Some(c) => if cancelled {
                finish(j, Some(file), Some(QwenErrorView::DownloadFailed("Download cancelled"@)))
            } else {
                match c {
                    Err(err) => fail(j, "Download error for "@ + file + ": "@ + err),
                    Ok(n) => (
                        DownloadJobView { stage: DownloadStage::Writing { total_size, downloaded, chunk: n }, ..j },
                        DownloadStepView { report: None, action: DownloadActionView::WriteChunk },
                    ),
                }
            },
        },
        (DownloadStage::Writing { total_size, downloaded, chunk }, DownloadEventView::ChunkWritten(r)) => match r {
            Some(err) => fail(j, "Failed to write file "@ + file + ": "@ + err),
            None => {
                let received = downloaded.wrapping_add(chunk);
                (
                    DownloadJobView { stage: DownloadStage::Reading { total_size, downloaded: received }, ..j },
                    DownloadStepView {
                        report: if total_size > LARGE_FILE_BYTES && j.has_callback {
                            Some(
                                stream_percent(
                                    j.completed_weight,
                                    file_weight(file),
                                    j.total_weight,
                                    received as nat,
                                    total_size as nat,
                                ),
                            )
                        } else {
                            None
                        },
                        action: DownloadActionView::ReadChunk,
                    },
                )
            },
        },
        (DownloadStage::Verifying, DownloadEventView::Probed { probe, cancelled }) => match probe {
            FileProbeView::Missing => fail(j, "File download completed but file not found: "@ + file),
            FileProbeView::Unreadable(err) => fail(j, "Failed to verify file "@ + file + ": "@ + err),
            FileProbeView::Present(_) => next_required(j, None),
        },
        (DownloadStage::ProbingOptional, DownloadEventView::Probed { probe, cancelled }) => match probe {
            FileProbeView::Missing => (
                DownloadJobView { stage: DownloadStage::RequestingOptional, ..j },
                DownloadStepView {
                    report: None,
                    action: DownloadActionView::Request {
                        url: optional_url(j.repo, opt),
                        use_token: true,
                        timeout_secs: OPTIONAL_TIMEOUT_SECS,
                    },
                },
            ),
            _ => next_optional(j),
        },
        (DownloadStage::RequestingOptional, DownloadEventView::Replied(reply)) => match reply {
            HttpReplyView::ClientFailed(err) => fail(j, "Failed to create HTTP client: "@ + err),
            HttpReplyView::Status { success, status_text, content_length } => if success {
                (
                    DownloadJobView { stage: DownloadStage::CreatingOptional, ..j },
                    DownloadStepView { report: None, action: DownloadActionView::CreateFile { file: opt } },
                )
            } else {
                next_optional(j)
            },
            HttpReplyView::NetworkFailed(_) => next_optional(j),
        },
        (DownloadStage::CreatingOptional, DownloadEventView::FileCreated(r)) => match r {
            Some(err) => fail(j, "Failed to create file "@ + opt + ": "@ + err),
            None => (
                DownloadJobView { stage: DownloadStage::ReadingOptional, ..j },
                DownloadStepView { report: None, action: DownloadActionView::ReadChunk },
            ),
        },
        (DownloadStage::ReadingOptional, DownloadEventView::ChunkRead { cancelled, chunk }) => match chunk {
            None => next_optional(j),
            Some(Err(err)) => fail(j, "Download error for "@ + opt + ": "@ + err),
            Some(Ok(_)) => (
                DownloadJobView { stage: DownloadStage::WritingOptional, ..j },
                DownloadStepView { report: None, action: DownloadActionView::WriteChunk },
            ),
        },
        (DownloadStage::WritingOptional, DownloadEventView::ChunkWritten(r)) => match r {
            Some(err) => fail(j, "Failed to write file "@ + opt + ": "@ + err),
            None => (
                DownloadJobView { stage: DownloadStage::ReadingOptional, ..j },
                DownloadStepView { report: None, action: DownloadActionView::ReadChunk },
            ),
        },
        // Events that the stage does not accept (see `accepts`) are never handed
        // to a job.
        _ => (j, DownloadStepView { report: None, action: DownloadActionView::ReadChunk }),
    }
}

/// Every step keeps the job's bookkeeping consistent with its stage: the
/// completed share is that of the files done so far, never above the total.
pub proof fn lemma_transition_wf(j: DownloadJobView, e: DownloadEventView)
    requires
        job_wf(j),
        accepts(j.stage, e),
    ensures
        job_wf(transition(j, e).0),
{
    lemma_weight_sum_bounds(REQUIRED_FILE_COUNT as nat);
    if j.file < REQUIRED_FILE_COUNT {
        lemma_weight_sum_monotone(j.file + 1, REQUIRED_FILE_COUNT as nat);
    }
}

/// The progress a job has reached: the share of the required files
/// completed so far, in percent.
pub open spec fn reached(j: DownloadJobView) -> u8 {
    percent(j.completed_weight, j.total_weight)
}

/// The progress the job reaches once its current required file is complete.
pub open spec fn reached_with_current(j: DownloadJobView) -> u8 {
    percent(weight_sum(j.file + 1), j.total_weight)
}

/// Percentages grow with the completed share, and a complete share is 100%.
pub proof fn lemma_percent_monotone(a: nat, b: nat, total: nat)
    requires
        a <= b <= total,
        0 < total,
    ensures
        percent(a, total) <= percent(b, total) <= 100,
        b == total ==> percent(b, total) == 100,
{
    vstd::arithmetic::div_mod::lemma_div_is_ordered((a * 100) as int, (b * 100) as int, total as int);
    vstd::arithmetic::div_mod::lemma_div_is_ordered((b * 100) as int, (total * 100) as int, total as int);
    vstd::arithmetic::div_mod::lemma_div_multiples_vanish(100, total as int);
    assert(total * 100 == 100 * total) by (nonlinear_arith);
}

/// Within a large file, the percentage lies between what was reached before
/// the file and what is reached once the file is complete, as long as no
/// more than the announced size was received; and it grows with the bytes
/// received.
pub proof fn lemma_stream_percent_bounds(done: nat, w: nat, total: nat, received: nat, size: nat)
    requires
        0 < total,
        0 < size,
        done + w <= total,
    ensures
        percent(done, total) <= stream_percent(done, w, total, received, size),
        received <= size ==> stream_percent(done, w, total, received, size) <= percent(done + w, total),
        forall|more: nat| received <= more ==> stream_percent(done, w, total, received, size)
            <= #[trigger] stream_percent(done, w, total, more, size),
{
    let den = size * total;
    assert(0 < size * total) by (nonlinear_arith)
        requires
            0 < size,
            0 < total,
    ;
    vstd::arithmetic::div_mod::lemma_div_multiples_vanish_quotient(size as int, (done * 100) as int, total as int);
    vstd::arithmetic::div_mod::lemma_div_multiples_vanish_quotient(size as int, ((done + w) * 100) as int, total as int);
    assert(size * (done * 100) <= (done * size + received * w) * 100) by (nonlinear_arith);
    vstd::arithmetic::div_mod::lemma_div_is_ordered(
        (size * (done * 100)) as int,
        ((done * size + received * w) * 100) as int,
        den as int,
    );
    if received <= size {
        assert((done * size + received * w) * 100 <= size * ((done + w) * 100)) by (nonlinear_arith)
            requires
                received <= size,
        ;
        vstd::arithmetic::div_mod::lemma_div_is_ordered(
            ((done * size + received * w) * 100) as int,
            (size * ((done + w) * 100)) as int,
            den as int,
        );
    }
    assert forall|more: nat| received <= more implies stream_percent(done, w, total, received, size)
        <= #[trigger] stream_percent(done, w, total, more, size) by {
        assert((done * size + received * w) * 100 <= (done * size + more * w) * 100) by (nonlinear_arith)
            requires
                received <= more,
        ;
        vstd::arithmetic::div_mod::lemma_div_is_ordered(
            ((done * size + received * w) * 100) as int,
            ((done * size + more * w) * 100) as int,
            den as int,
        );
    }
}

/// Progress never goes back: every step reports at least the progress the
/// job had reached, and no more than it reaches once the current file is
/// complete (for a large file, as long as no more than its announced size is
/// received), which is at most 100; and the progress reached never
/// decreases from one step to the next.
pub proof fn lemma_progress_monotone(j: DownloadJobView, e: DownloadEventView)
    requires
        job_wf(j),
        accepts(j.stage, e),
    ensures
        reached(j) <= reached(transition(j, e).0),
        transition(j, e).1.report matches Some(r) ==> {
            &&& reached(j) <= r
            &&& reached_with_current(j) <= 100
            &&& (j.stage matches DownloadStage::Writing { total_size, downloaded, chunk } ==> downloaded
                + chunk <= total_size) ==> r <= reached_with_current(j)
        },
{
    lemma_transition_wf(j, e);
    lemma_weight_sum_bounds(REQUIRED_FILE_COUNT as nat);
    let j2 = transition(j, e).0;
    lemma_percent_monotone(j.completed_weight, j2.completed_weight, j.total_weight);
    if j.stage is ProbingRequired || j.stage is Writing {
        lemma_weight_sum_monotone(j.file + 1, REQUIRED_FILE_COUNT as nat);
        lemma_percent_monotone(j.completed_weight, weight_sum(j.file + 1), j.total_weight);
        lemma_percent_monotone(weight_sum(j.file + 1), j.total_weight, j.total_weight);
    }
    if let DownloadStage::Writing { total_size, downloaded, chunk } = j.stage {
        if total_size > 0 {
            let file = required_file(j.file as int);
            lemma_stream_percent_bounds(
                j.completed_weight,
                file_weight(file),
                j.total_weight,
                downloaded.wrapping_add(chunk) as nat,
                total_size as nat,
            );
        }
    }
}

/// The least progress the job can report next: within a large file, how far
/// its body has come; elsewhere, the progress reached.
pub open spec fn progress_mark(j: DownloadJobView) -> u8 {
    match j.stage {
        DownloadStage::Reading { total_size, downloaded }
        | DownloadStage::Writing { total_size, downloaded, .. } => if total_size > LARGE_FILE_BYTES {
            stream_percent(
                j.completed_weight,
                file_weight(required_file(j.file as int)),
                j.total_weight,
                downloaded as nat,
                total_size as nat,
            )
        } else {
            reached(j)
        },
        _ => reached(j),
    }
}

/// The body received so far does not exceed its announced size.
pub open spec fn within_announced_size(j: DownloadJobView) -> bool {
    match j.stage {
        DownloadStage::Reading { total_size, downloaded } => downloaded <= total_size,
        DownloadStage::Writing { total_size, downloaded, chunk } => downloaded + chunk <= total_size,
        _ => true,
    }
}

/// Reported progress never decreases over a download whose bodies keep to
/// their announced sizes: a step reports no less than the job's mark, and
/// the mark of a job that goes on is no less than the mark before the step
/// and than what the step reported. So every report is at least the one
/// before it.
pub proof fn lemma_reports_never_decrease(j: DownloadJobView, e: DownloadEventView)
    requires
        job_wf(j),
        accepts(j.stage, e),
        within_announced_size(j),
    ensures
        transition(j, e).1.report matches Some(r) ==> progress_mark(j) <= r,
        !(transition(j, e).0.stage is Finished) ==> {
            &&& progress_mark(j) <= progress_mark(transition(j, e).0)
            &&& transition(j, e).1.report matches Some(r) ==> r <= progress_mark(transition(j, e).0)
        },
{
    lemma_transition_wf(j, e);
    lemma_progress_monotone(j, e);
    lemma_weight_sum_bounds(REQUIRED_FILE_COUNT as nat);
    let j2 = transition(j, e).0;
    if j.file < REQUIRED_FILE_COUNT {
        lemma_weight_sum_monotone(j.file + 1, REQUIRED_FILE_COUNT as nat);
    }
    let w = file_weight(required_file(j.file as int));
    match j.stage {
        DownloadStage::Reading { total_size, downloaded } => {
            if total_size > LARGE_FILE_BYTES {
                lemma_stream_percent_bounds(j.completed_weight, w, j.total_weight, downloaded as nat, total_size as nat);
            }
        },
        DownloadStage::Writing { total_size, downloaded, chunk } => {
            if total_size > LARGE_FILE_BYTES {
                lemma_stream_percent_bounds(j.completed_weight, w, j.total_weight, downloaded as nat, total_size as nat);
            }
        },
        DownloadStage::CreatingFile { total_size } => {
            if total_size > LARGE_FILE_BYTES {
                lemma_stream_percent_bounds(j.completed_weight, w, j.total_weight, 0, total_size as nat);
            }
        },
        _ => {},
    }
}

/// A download ends successfully only once every required file is in place:
/// all of them are counted as complete, which is 100% of the progress.
pub proof fn lemma_success_needs_all_files(j: DownloadJobView, e: DownloadEventView)
    requires
        job_wf(j),
        accepts(j.stage, e),
        transition(j, e).1.action matches DownloadActionView::Finish { error: None, .. },
    ensures
        transition(j, e).0.completed_files == REQUIRED_FILE_COUNT,
        transition(j, e).0.completed_weight == j.total_weight,
        reached(transition(j, e).0) == 100,
{
    lemma_weight_sum_bounds(REQUIRED_FILE_COUNT as nat);
    lemma_percent_monotone(j.total_weight, j.total_weight, j.total_weight);
}

/// The event tells that the body being received has ended.
pub open spec fn body_ended(e: DownloadEventView) -> bool {
    e matches DownloadEventView::ChunkRead { chunk: None, .. }
}

/// The event is a probe that found `file` on disk with enough content to
/// keep: more than 100 MB for a shard (a name ending in `.safetensors`), at
/// least one byte for any other file.
pub open spec fn found_valid(file: Seq<char>, e: DownloadEventView) -> bool {
    match e {
        DownloadEventView::Probed { probe: FileProbeView::Present(size), .. } => if ends_with(
            file,
            ".safetensors"@,
        ) {
            size > 100_000_000
        } else {
            size > 0
        },
        _ => false,
    }
}

/// The step ends the download with an error.
pub open spec fn ends_in_error(s: DownloadStepView) -> bool {
    s.action matches DownloadActionView::Finish { error: Some(_), .. }
}

/// The message of a failed chunk read of `file`.
pub open spec fn chunk_error_message(file: Seq<char>, err: Seq<char>) -> Seq<char> {
    "Download error for "@ + file + ": "@ + err
}

/// A chunk read that fails while the body of a required file is being
/// received, without a cancellation, ends the download with
/// `DownloadFailed("Download error for <file>: <error>")`; nothing is
/// removed, reported or counted complete.
pub proof fn lemma_required_chunk_error_fails(j: DownloadJobView, e: DownloadEventView, err: Seq<char>)
    requires
        j.stage is Reading,
        e == (DownloadEventView::ChunkRead { cancelled: false, chunk: Some(Err(err)) }),
    ensures
        transition(j, e).1.report is None,
        transition(j, e).1.action == (DownloadActionView::Finish {
            remove_partial: None,
            error: Some(QwenErrorView::DownloadFailed(chunk_error_message(required_file(j.file as int), err))),
        }),
        transition(j, e).0.stage == DownloadStage::Finished,
        transition(j, e).0.completed_files == j.completed_files,
        transition(j, e).0.completed_weight == j.completed_weight,
{
}

/// A cancelled chunk read while a required file's body is being received
/// stops the download with `DownloadFailed("Download cancelled")` and has
/// the partial file removed.
pub proof fn lemma_cancelled_read_stops(j: DownloadJobView, e: DownloadEventView, c: Result<u64, Seq<char>>)
    requires
        j.stage is Reading,
        e == (DownloadEventView::ChunkRead { cancelled: true, chunk: Some(c) }),
    ensures
        transition(j, e).1.action == (DownloadActionView::Finish {
            remove_partial: Some(required_file(j.file as int)),
            error: Some(QwenErrorView::DownloadFailed("Download cancelled"@)),
        }),
        transition(j, e).0.stage == DownloadStage::Finished,
{
}

/// A cancellation seen before a required file that must be fetched stops
/// the download with `DownloadFailed("Download cancelled")`, before any
/// request.
pub proof fn lemma_cancelled_probe_stops(j: DownloadJobView, e: DownloadEventView, probe: FileProbeView)
    requires
        j.stage is ProbingRequired,
        e == (DownloadEventView::Probed { probe, cancelled: true }),
        !(probe is Unreadable),
        !found_valid(required_file(j.file as int), e),
    ensures
        transition(j, e).1.action == (DownloadActionView::Finish {
            remove_partial: None,
            error: Some(QwenErrorView::DownloadFailed("Download cancelled"@)),
        }),
        transition(j, e).0.stage == DownloadStage::Finished,
{
    reveal_strlit(".safetensors");
    assert(safetensors_extension() == ".safetensors"@);
}

/// A chunk read that fails while an optional file's body is being received
/// ends the download with `DownloadFailed("Download error for <file>:
/// <error>")`.
pub proof fn lemma_optional_chunk_error_fails(j: DownloadJobView, e: DownloadEventView, err: Seq<char>)
    requires
        j.stage is ReadingOptional,
        e matches DownloadEventView::ChunkRead { chunk: Some(Err(x)), .. } && x == err,
    ensures
        transition(j, e).1.action == (DownloadActionView::Finish {
            remove_partial: None,
            error: Some(QwenErrorView::DownloadFailed(chunk_error_message(optional_file(j.file as int), err))),
        }),
        transition(j, e).0.stage == DownloadStage::Finished,
{
}

/// A required file is counted complete only when its body has ended or when
/// it was found valid on disk; each such step counts exactly that one file,
/// with its share.
pub proof fn lemma_files_counted_only_when_complete(j: DownloadJobView, e: DownloadEventView)
    requires
        job_wf(j),
        accepts(j.stage, e),
        transition(j, e).0.completed_files != j.completed_files,
    ensures
        transition(j, e).0.completed_files == j.completed_files + 1,
        transition(j, e).0.completed_weight == j.completed_weight + file_weight(required_file(j.file as int)),
        (j.stage is Reading && body_ended(e)) || (j.stage is ProbingRequired && found_valid(
            required_file(j.file as int),
            e,
        )),
{
    reveal_strlit(".safetensors");
    assert(safetensors_extension() == ".safetensors"@);
}

/// Once every required file is in place, an optional file that the server
/// does not have, or that cannot be reached, never makes the download fail:
/// the job goes on to the next optional file, or ends successfully after
/// the last one.
pub proof fn lemma_optional_request_failure_is_harmless(j: DownloadJobView, e: DownloadEventView, reply: HttpReplyView)
    requires
        j.stage == DownloadStage::RequestingOptional,
        e == DownloadEventView::Replied(reply),
        reply is NetworkFailed || (reply matches HttpReplyView::Status { success: false, .. }),
    ensures
        !ends_in_error(transition(j, e).1),
        j.file + 1 >= OPTIONAL_FILE_COUNT ==> transition(j, e).1.action == (DownloadActionView::Finish {
            remove_partial: None,
            error: None,
        }),
        j.file + 1 < OPTIONAL_FILE_COUNT ==> transition(j, e).1.action == (DownloadActionView::Probe {
            file: optional_file(j.file + 1 as int),
            with_size: false,
        }),
{
}

// ---------------------------------------------------------------------------
// Laws over a whole download
// ---------------------------------------------------------------------------

/// The job after the first `k` of `events`, starting from `j`.
pub open spec fn run_job(j: DownloadJobView, events: Seq<DownloadEventView>, k: nat) -> DownloadJobView
    decreases k,
{
    if k == 0 {
        j
    } else {
        transition(run_job(j, events, (k - 1) as nat), events[k - 1]).0
    }
}

/// The step taken on the `k`-th of `events`.
pub open spec fn run_step(j: DownloadJobView, events: Seq<DownloadEventView>, k: nat) -> DownloadStepView {
    transition(run_job(j, events, k), events[k as int]).1
}

/// Each of `events` answers the last action of the job it is handed to.
pub open spec fn run_accepted(j: DownloadJobView, events: Seq<DownloadEventView>) -> bool {
    forall|k: nat| k < events.len() ==> accepts(#[trigger] run_job(j, events, k).stage, events[k as int])
}

/// Throughout the run, the bodies received keep to their announced sizes.
pub open spec fn run_within_sizes(j: DownloadJobView, events: Seq<DownloadEventView>) -> bool {
    forall|k: nat| k < events.len() ==> within_announced_size(#[trigger] run_job(j, events, k))
}

/// The step reports no progress, or at most `bound`.
pub open spec fn report_at_most(step: DownloadStepView, bound: int) -> bool {
    match step.report {
        Some(r) => r <= bound,
        None => true,
    }
}

/// When both steps report progress, the first reports no more than the
/// second.
pub open spec fn reports_in_order(a: DownloadStepView, b: DownloadStepView) -> bool {
    match (a.report, b.report) {
        (Some(r1), Some(r2)) => r1 <= r2,
        _ => true,
    }
}

/// Along a run, the jobs stay consistent, and every progress reported so far
/// is at most the mark of the job that takes the next event.
proof fn lemma_run_marks(j: DownloadJobView, events: Seq<DownloadEventView>, k: nat)
    requires
        job_wf(j),
        run_accepted(j, events),
        run_within_sizes(j, events),
        k <= events.len(),
    ensures
        job_wf(run_job(j, events, k)),
        k < events.len() ==> forall|k1: nat| k1 < k ==> report_at_most(
            #[trigger] run_step(j, events, k1),
            progress_mark(run_job(j, events, k)) as int,
        ),
    decreases k,
{
    if k > 0 {
        let k0 = (k - 1) as nat;
        lemma_run_marks(j, events, k0);
        let jp = run_job(j, events, k0);
        assert(accepts(run_job(j, events, k0).stage, events[k0 as int]));
        assert(within_announced_size(run_job(j, events, k0)));
        lemma_transition_wf(jp, events[k0 as int]);
        lemma_reports_never_decrease(jp, events[k0 as int]);
        assert(run_job(j, events, k) == transition(jp, events[k0 as int]).0);
        if k < events.len() {
            assert(accepts(run_job(j, events, k).stage, events[k as int]));
            assert forall|k1: nat| k1 < k implies report_at_most(
                #[trigger] run_step(j, events, k1),
                progress_mark(run_job(j, events, k)) as int,
            ) by {
                if k1 < k0 {
                }
            }
        }
    }
}

/// Over a whole download whose bodies keep to their announced sizes, the
/// progress reported never decreases from one report to the next, and never
/// exceeds 100.
pub proof fn lemma_run_reports_never_decrease(j: DownloadJobView, events: Seq<DownloadEventView>)
    requires
        job_wf(j),
        run_accepted(j, events),
        run_within_sizes(j, events),
    ensures
        forall|k1: nat, k2: nat|
            #![trigger run_step(j, events, k1), run_step(j, events, k2)]
            k1 < k2 < events.len() ==> reports_in_order(run_step(j, events, k1), run_step(j, events, k2)),
        forall|k: nat| k < events.len() ==> report_at_most(#[trigger] run_step(j, events, k), 100),
{
    assert forall|k1: nat, k2: nat|
        #![trigger run_step(j, events, k1), run_step(j, events, k2)]
        k1 < k2 < events.len() implies reports_in_order(run_step(j, events, k1), run_step(j, events, k2)) by {
        lemma_run_marks(j, events, k2);
        assert(accepts(run_job(j, events, k2).stage, events[k2 as int]));
        assert(within_announced_size(run_job(j, events, k2)));
        lemma_reports_never_decrease(run_job(j, events, k2), events[k2 as int]);
    }
    assert forall|k: nat| k < events.len() implies report_at_most(#[trigger] run_step(j, events, k), 100) by {
        lemma_run_marks(j, events, k);
        assert(accepts(run_job(j, events, k).stage, events[k as int]));
        assert(within_announced_size(run_job(j, events, k)));
        lemma_progress_monotone(run_job(j, events, k), events[k as int]);
    }
}

/// The base address of the official host.
pub open spec fn official_base() -> Seq<char> {
    source_base(1)
}

/// A request carries the token exactly when it goes to the official host;
/// a request without it goes to the mirror.
pub open spec fn token_rule(a: DownloadActionView) -> bool {
    a matches DownloadActionView::Request { url, use_token, .. } ==> {
        &&& use_token <==> starts_with(url, official_base())
        &&& !use_token ==> starts_with(url, source_base(0))
    }
}

/// `a` begins `a + b`.
proof fn lemma_starts_with_concat(a: Seq<char>, b: Seq<char>)
    ensures
        starts_with(a + b, a),
{
    assert((a + b).subrange(0, a.len() as int) =~= a);
}

/// One step keeps to the order of sources: every request carries the token
/// exactly when it goes to the official host, and a required file is asked
/// of the official host only right after the mirror failed to give it.
pub proof fn lemma_step_sources(j: DownloadJobView, e: DownloadEventView)
    requires
        accepts(j.stage, e),
    ensures
        token_rule(transition(j, e).1.action),
        transition(j, e).0.stage == (DownloadStage::Requesting { source: 1 }) ==> {
            &&& j.stage == (DownloadStage::Requesting { source: 0 })
            &&& (e matches DownloadEventView::Replied(HttpReplyView::NetworkFailed(_))
                || e matches DownloadEventView::Replied(HttpReplyView::Status { success: false, .. }))
        },
        transition(j, e).0.stage == (DownloadStage::Requesting { source: 0 }) ==> !(transition(
            j,
            e,
        ).1.action matches DownloadActionView::Request { use_token: true, .. }),
{
    reveal_strlit("https://hf-mirror.com");
    reveal_strlit("https://huggingface.co");
    reveal_strlit("https://huggingface.co/");
    let mirror = source_base(0);
    let official = source_base(1);
    let file = required_file(j.file as int);
    let opt = optional_file(j.file as int);
    lemma_starts_with_concat(mirror, "/"@ + j.repo + "/resolve/main/"@ + file);
    assert(file_url(mirror, j.repo, file) =~= mirror + ("/"@ + j.repo + "/resolve/main/"@ + file));
    lemma_starts_with_concat(official, "/"@ + j.repo + "/resolve/main/"@ + file);
    assert(file_url(official, j.repo, file) =~= official + ("/"@ + j.repo + "/resolve/main/"@ + file));
    lemma_starts_with_concat("https://huggingface.co/"@, j.repo + "/resolve/main/"@ + opt);
    assert(optional_url(j.repo, opt) =~= "https://huggingface.co/"@ + (j.repo + "/resolve/main/"@ + opt));
    assert(("https://huggingface.co/"@).subrange(0, 22) =~= official);
    assert forall|u: Seq<char>| starts_with(u, "https://huggingface.co/"@) implies starts_with(u, official) by {
        assert(u.subrange(0, 22) =~= u.subrange(0, 23).subrange(0, 22));
    }
    assert forall|u: Seq<char>| starts_with(u, mirror) implies !starts_with(u, official) by {
        assert(u.subrange(0, 21)[9] == u[9]);
        if u.len() >= 22 {
            assert(u.subrange(0, 22)[9] == u[9]);
        }
    }
}

/// Over a whole download, every request carries the token exactly when it
/// goes to the official host, and each required file is asked of the
/// official host only right after the mirror failed to give it.
pub proof fn lemma_run_sources(j: DownloadJobView, events: Seq<DownloadEventView>)
    requires
        run_accepted(j, events),
    ensures
        forall|k: nat| k < events.len() ==> token_rule((#[trigger] run_step(j, events, k)).action),
        forall|k: nat|
            k < events.len() && (#[trigger] run_job(j, events, k + 1)).stage == (DownloadStage::Requesting {
                source: 1,
            }) ==> {
                &&& run_job(j, events, k).stage == (DownloadStage::Requesting { source: 0 })
                &&& (events[k as int] matches DownloadEventView::Replied(HttpReplyView::NetworkFailed(_))
                    || events[k as int] matches DownloadEventView::Replied(
                    HttpReplyView::Status { success: false, .. },
                ))
            },
{
    assert forall|k: nat| k < events.len() implies token_rule((#[trigger] run_step(j, events, k)).action) by {
        assert(accepts(run_job(j, events, k).stage, events[k as int]));
        lemma_step_sources(run_job(j, events, k), events[k as int]);
    }
    assert forall|k: nat|
        k < events.len() && (#[trigger] run_job(j, events, k + 1)).stage == (DownloadStage::Requesting {
            source: 1,
        }) implies {
        &&& run_job(j, events, k).stage == (DownloadStage::Requesting { source: 0 })
        &&& (events[k as int] matches DownloadEventView::Replied(HttpReplyView::NetworkFailed(_))
            || events[k as int] matches DownloadEventView::Replied(HttpReplyView::Status { success: false, .. }))
    } by {
        assert(accepts(run_job(j, events, k).stage, events[k as int]));
        lemma_step_sources(run_job(j, events, k), events[k as int]);
        assert(run_job(j, events, k + 1) == transition(run_job(j, events, k), events[k as int]).0);
    }
}

// ---------------------------------------------------------------------------
// Executable steps
// ---------------------------------------------------------------------------

/// The failure of a download, described by `msg`.
fn download_failed(msg: String) -> (e: QwenError)
    ensures
        e@ == QwenErrorView::DownloadFailed(msg@),
{
    QwenError::from(QwenEngineError::DownloadFailed(msg))
}

/// `a` followed by `b`.
fn join2(a: &str, b: &str) -> (r: String)
    ensures
        r@ == a@ + b@,
{
    String::from_str(a).concat(b)
}

/// `a`, `b`, `c` and `d` in a row.
fn join4(a: &str, b: &str, c: &str, d: &str) -> (r: String)
    ensures
        r@ == a@ + b@ + c@ + d@,
{
    let mut s = String::from_str(a);
    s.append(b);
    s.append(c);
    s.append(d);
    s
}

/// The percentage reached when a share `done` of `total` is complete.
fn percent_of(done: u64, total: u64) -> (p: u8)
    requires
        0 < total <= 1800,
        done <= 1800,
    ensures
        p == percent(done as nat, total as nat),
{
    let q = done * 100 / total;
    if q > 255 {
        255
    } else {
        q as u8
    }
}

/// The percentage reached within a large file; see `stream_percent`.
fn stream_percent_of(done: u64, w: u64, total: u64, received: u64, size: u64) -> (p: u8)
    requires
        0 < total <= 1800,
        done <= 1800,
        w <= 180,
        0 < size,
    ensures
        p == stream_percent(done as nat, w as nat, total as nat, received as nat, size as nat),
{
    assert((done as int) * (size as int) <= 1800 * 0xFFFF_FFFF_FFFF_FFFF) by (nonlinear_arith)
        requires
            done <= 1800,
            size <= 0xFFFF_FFFF_FFFF_FFFFu64,
    ;
    assert((received as int) * (w as int) <= 180 * 0xFFFF_FFFF_FFFF_FFFF) by (nonlinear_arith)
        requires
            w <= 180,
            received <= 0xFFFF_FFFF_FFFF_FFFFu64,
    ;
    assert(0 < (size as int) * (total as int) <= 1800 * 0xFFFF_FFFF_FFFF_FFFF) by (nonlinear_arith)
        requires
            0 < total <= 1800,
            0 < size <= 0xFFFF_FFFF_FFFF_FFFFu64,
    ;
    let a = (done as u128) * (size as u128);
    let b = (received as u128) * (w as u128);
    let num = (a + b) * 100;
    let den = (size as u128) * (total as u128);
    let q = num / den;
    if q > 255 {
        255
    } else {
        q as u8
    }
}

impl DownloadJob {
    /// The job's bookkeeping is consistent with its stage.
    pub closed spec fn wf(&self) -> bool {
        job_wf(self@)
    }

    /// A new download of the model `model_name`, which will report progress
    /// when `has_callback`; its first action is to create the model directory.
    pub fn new(model_name: &str, has_callback: bool) -> (r: (Self, DownloadStep))
        ensures
            r.0.wf(),
            r.0@ == (DownloadJobView {
                model_name: model_name@,
                repo: Seq::empty(),
                has_callback,
                file: 0,
                total_weight: weight_sum(REQUIRED_FILE_COUNT as nat),
                completed_weight: 0,
                completed_files: 0,
                last_error: None,
                stage: DownloadStage::CreatingDir,
            }),
            r.1@ == (DownloadStepView { report: None, action: DownloadActionView::CreateDir }),
    {
        proof {
            lemma_weight_sum_bounds(REQUIRED_FILE_COUNT as nat);
        }
        let job = DownloadJob {
            model_name: String::from_str(model_name),
            repo: String::new(),
            has_callback,
            file: 0,
            total_weight: total_weight(),
            completed_weight: 0,
            completed_files: 0,
            last_error: None,
            stage: DownloadStage::CreatingDir,
        };
        (job, DownloadStep { report: None, action: DownloadAction::CreateDir })
    }

    /// The name of the model being downloaded.
    pub fn model_name(&self) -> (s: &str)
        ensures
            s@ == self@.model_name,
    {
        self.model_name.as_str()
    }

    /// Whether the job has ended.
    pub fn is_finished(&self) -> (b: bool)
        ensures
            b == (self@.stage is Finished),
    {
        match self.stage {
            DownloadStage::Finished => true,
            _ => false,
        }
    }

    /// Whether the job takes `event` in its current stage.
    pub fn accepts(&self, event: &DownloadEvent) -> (b: bool)
        ensures
            b == accepts(self@.stage, event@),
    {
        match (self.stage, event) {
            (DownloadStage::CreatingDir, DownloadEvent::DirCreated(_)) => true,
            (DownloadStage::ProbingRequired, DownloadEvent::Probed { .. }) => true,
            (DownloadStage::Verifying, DownloadEvent::Probed { .. }) => true,
            (DownloadStage::ProbingOptional, DownloadEvent::Probed { .. }) => true,
            (DownloadStage::Requesting { .. }, DownloadEvent::Replied(_)) => true,
            (DownloadStage::RequestingOptional, DownloadEvent::Replied(_)) => true,
            (DownloadStage::CreatingFile { .. }, DownloadEvent::FileCreated(_)) => true,
            (DownloadStage::CreatingOptional, DownloadEvent::FileCreated(_)) => true,
            (DownloadStage::Reading { .. }, DownloadEvent::ChunkRead { .. }) => true,
            (DownloadStage::ReadingOptional, DownloadEvent::ChunkRead { .. }) => true,
            (DownloadStage::Writing { .. }, DownloadEvent::ChunkWritten(_)) => true,
            (DownloadStage::WritingOptional, DownloadEvent::ChunkWritten(_)) => true,
            _ => false,
        }
    }

    /// Ends the job with `result`, after removing `remove_partial`.
    fn end(&mut self, remove_partial: Option<String>, result: Result<(), QwenError>) -> (s: DownloadStep)
        ensures
            (final(self)@, s@) == finish(
                old(self)@,
                opt_view(remove_partial),
                match result {
                    Ok(()) => None,
                    Err(e) => Some(e@),
                },
            ),
    {
        self.stage = DownloadStage::Finished;
        DownloadStep { report: None, action: DownloadAction::Finish { remove_partial, result } }
    }

    /// Ends the job with a download failure described by `msg`.
    fn fail_with(&mut self, msg: String) -> (s: DownloadStep)
        ensures
            (final(self)@, s@) == fail(old(self)@, msg@),
    {
        self.end(None, Err(download_failed(msg)))
    }

    /// Moves on after the current required file.
    fn advance_required(&mut self, report: Option<u8>) -> (s: DownloadStep)
        requires
            old(self).file < REQUIRED_FILE_COUNT,
        ensures
            (final(self)@, s@) == next_required(old(self)@, report),
    {
        if self.file + 1 < REQUIRED_FILE_COUNT {
            self.file = self.file + 1;
            self.stage = DownloadStage::ProbingRequired;
            let file = String::from_str(required_file_name(self.file));
            DownloadStep { report, action: DownloadAction::Probe { file, with_size: true } }
        } else {
            self.file = 0;
            self.stage = DownloadStage::ProbingOptional;
            let file = String::from_str(optional_file_name(0));
            DownloadStep { report, action: DownloadAction::Probe { file, with_size: false } }
        }
    }

    /// Moves on after the current optional file.
    fn advance_optional(&mut self) -> (s: DownloadStep)
        requires
            old(self).file < OPTIONAL_FILE_COUNT,
        ensures
            (final(self)@, s@) == next_optional(old(self)@),
    {
        if self.file + 1 < OPTIONAL_FILE_COUNT {
            self.file = self.file + 1;
            self.stage = DownloadStage::ProbingOptional;
            let file = String::from_str(optional_file_name(self.file));
            DownloadStep { report: None, action: DownloadAction::Probe { file, with_size: false } }
        } else {
            self.end(None, Ok(()))
        }
    }

    /// Requests the current required file from source `source`.
    fn request(&mut self, source: usize) -> (s: DownloadStep)
        requires
            source < SOURCE_COUNT,
            old(self).file < REQUIRED_FILE_COUNT,
        ensures
            (final(self)@, s@) == request_required(old(self)@, source as nat),
    {
        self.stage = DownloadStage::Requesting { source };
        let url = join4(
            source_base_name(source),
            "/",
            self.repo.as_str(),
            "/resolve/main/",
        ).concat(required_file_name(self.file));
        DownloadStep {
            report: None,
            action: DownloadAction::Request {
                url,
                use_token: source == 1,
                timeout_secs: REQUIRED_TIMEOUT_SECS,
            },
        }
    }

    /// Tries the next source after `source` failed with `error`.
    fn retry(&mut self, source: usize, error: String) -> (s: DownloadStep)
        requires
            source < SOURCE_COUNT,
            old(self).file < REQUIRED_FILE_COUNT,
        ensures
            (final(self)@, s@) == next_source(old(self)@, source as nat, error@),
    {
        let msg = join4(
            "Failed to download ",
            required_file_name(self.file),
            " from all sources. Last error: ",
            error.as_str(),
        );
        self.last_error = Some(error);
        if source + 1 < SOURCE_COUNT {
            self.request(source + 1)
        } else {
            self.fail_with(msg)
        }
    }

    /// The directory was created, or not.
    fn on_dir_created(&mut self, r: Result<(), String>) -> (s: DownloadStep)
        requires
            job_wf(old(self)@),
            old(self)@.stage is CreatingDir,
        ensures
            (final(self)@, s@) == transition(old(self)@, DownloadEventView::DirCreated(failure(r))),
    {
        match r {
            Err(e) => self.fail_with(join2("Failed to create directory: ", e.as_str())),
            Ok(()) => match repo_name(self.model_name.as_str()) {
                None => {
                    let msg = join2("Unknown model: ", self.model_name.as_str());
                    self.end(None, Err(QwenError::from(QwenEngineError::ModelNotFound(msg))))
                },
                Some(repo) => {
                    self.repo = String::from_str(repo);
                    self.file = 0;
                    self.stage = DownloadStage::ProbingRequired;
                    let file = String::from_str(required_file_name(0));
                    DownloadStep { report: None, action: DownloadAction::Probe { file, with_size: true } }
                },
            },
        }
    }

    /// The current required file was probed.
    fn on_required_probe(&mut self, probe: FileProbe, cancelled: bool) -> (s: DownloadStep)
        requires
            job_wf(old(self)@),
            old(self)@.stage is ProbingRequired,
        ensures
            (final(self)@, s@) == transition(
                old(self)@,
                DownloadEventView::Probed { probe: probe@, cancelled },
            ),
    {
        let name = required_file_name(self.file);
        let w = file_weight_of(name);
        let weights = w == 180;
        proof {
            lemma_weight_sum_bounds(REQUIRED_FILE_COUNT as nat);
            lemma_weight_sum_monotone(self.file as nat + 1, REQUIRED_FILE_COUNT as nat);
        }
        match probe {
            FileProbe::Unreadable(e) => self.fail_with(join2("Failed to check file: ", e.as_str())),
            FileProbe::Present(size) if (if weights { size > 100_000_000 } else { size > 0 }) => {
                self.completed_weight = self.completed_weight + w;
                self.completed_files = self.completed_files + 1;
                let report = if self.has_callback {
                    Some(percent_of(self.completed_weight, self.total_weight))
                } else {
                    None
                };
                self.advance_required(report)
            },
            _ => if cancelled {
                self.fail_with(String::from_str("Download cancelled"))
            } else {
                self.last_error = None;
                self.request(0)
            },
        }
    }

    /// The current required file was answered from source `source`.
    fn on_reply(&mut self, source: usize, reply: HttpReply) -> (s: DownloadStep)
        requires
            job_wf(old(self)@),
            old(self)@.stage == (DownloadStage::Requesting { source }),
        ensures
            (final(self)@, s@) == transition(old(self)@, DownloadEventView::Replied(reply@)),
    {
        match reply {
            HttpReply::ClientFailed(e) => self.fail_with(join2("Failed to create HTTP client: ", e.as_str())),
            HttpReply::Status { success, status_text, content_length } => {
                if success {
                    let total_size = match content_length {
                        Some(n) => n,
                        None => 0,
                    };
                    self.stage = DownloadStage::CreatingFile { total_size };
                    let file = String::from_str(required_file_name(self.file));
                    DownloadStep { report: None, action: DownloadAction::CreateFile { file } }
                } else {
                    self.retry(source, join2("HTTP ", status_text.as_str()))
                }
            },
            HttpReply::NetworkFailed(e) => self.retry(source, join2("Network error: ", e.as_str())),
        }
    }

    /// The current required file was created, or not.
    fn on_file_created(&mut self, total_size: u64, r: Result<(), String>) -> (s: DownloadStep)
        requires
            job_wf(old(self)@),
            old(self)@.stage == (DownloadStage::CreatingFile { total_size }),
        ensures
            (final(self)@, s@) == transition(old(self)@, DownloadEventView::FileCreated(failure(r))),
    {
        match r {
            Err(e) => self.fail_with(join4("Failed to create file ", required_file_name(self.file), ": ", e.as_str())),
            Ok(()) => {
                self.stage = DownloadStage::Reading { total_size, downloaded: 0 };
                DownloadStep { report: None, action: DownloadAction::ReadChunk }
            },
        }
    }

    /// The next piece of the current required file's body.
    fn on_chunk_read(&mut self, total_size: u64, downloaded: u64, cancelled: bool, chunk: Option<Result<u64, String>>) -> (s: DownloadStep)
        requires
            job_wf(old(self)@),
            old(self)@.stage == (DownloadStage::Reading { total_size, downloaded }),
        ensures
            (final(self)@, s@) == transition(
                old(self)@,
                DownloadEventView::ChunkRead {
                    cancelled,
                    chunk: match chunk {
                        None => None,
                        Some(Ok(n)) => Some(Ok(n)),
                        Some(Err(e)) => Some(Err(e@)),
                    },
                },
            ),
    {
        let name = required_file_name(self.file);
        match chunk {
            None => {
                proof {
                    lemma_weight_sum_bounds(REQUIRED_FILE_COUNT as nat);
                    lemma_weight_sum_monotone(self.file as nat + 1, REQUIRED_FILE_COUNT as nat);
                }
                self.completed_weight = self.completed_weight + file_weight_of(name);
                self.completed_files = self.completed_files + 1;
                self.stage = DownloadStage::Verifying;
                DownloadStep {
                    report: None,
                    action: DownloadAction::Probe { file: String::from_str(name), with_size: true },
                }
            },
            Some(c) => if cancelled {
                let err = download_failed(String::from_str("Download cancelled"));
                self.end(Some(String::from_str(name)), Err(err))
            } else {
                match c {
                    Err(e) => self.fail_with(join4("Download error for ", name, ": ", e.as_str())),
                    Ok(n) => {
                        self.stage = DownloadStage::Writing { total_size, downloaded, chunk: n };
                        DownloadStep { report: None, action: DownloadAction::WriteChunk }
                    },
                }
            },
        }
    }

    /// A chunk of the current required file was written, or not.
    fn on_chunk_written(&mut self, total_size: u64, downloaded: u64, chunk: u64, r: Result<(), String>) -> (s: DownloadStep)
        requires
            job_wf(old(self)@),
            old(self)@.stage == (DownloadStage::Writing { total_size, downloaded, chunk }),
        ensures
            (final(self)@, s@) == transition(old(self)@, DownloadEventView::ChunkWritten(failure(r))),
    {
        let name = required_file_name(self.file);
        match r {
            Err(e) => self.fail_with(join4("Failed to write file ", name, ": ", e.as_str())),
            Ok(()) => {
                let received = downloaded.wrapping_add(chunk);
                proof {
                    lemma_weight_sum_bounds(REQUIRED_FILE_COUNT as nat);
                }
                let report = if total_size > LARGE_FILE_BYTES && self.has_callback {
                    let w = file_weight_of(name);
                    Some(stream_percent_of(self.completed_weight, w, self.total_weight, received, total_size))
                } else {
                    None
                };
                self.stage = DownloadStage::Reading { total_size, downloaded: received };
                DownloadStep { report, action: DownloadAction::ReadChunk }
            },
        }
    }

    /// The file just downloaded was probed.
    fn on_verify_probe(&mut self, probe: FileProbe) -> (s: DownloadStep)
        requires
            job_wf(old(self)@),
            old(self)@.stage is Verifying,
        ensures
            forall|cancelled: bool| (final(self)@, s@) == #[trigger] transition(
                old(self)@,
                DownloadEventView::Probed { probe: probe@, cancelled },
            ),
    {
        let name = required_file_name(self.file);
        match probe {
            FileProbe::Missing => self.fail_with(join2("File download completed but file not found: ", name)),
            FileProbe::Unreadable(e) => self.fail_with(join4("Failed to verify file ", name, ": ", e.as_str())),
            FileProbe::Present(_) => self.advance_required(None),
        }
    }

    /// The current optional file was probed.
    fn on_optional_probe(&mut self, probe: FileProbe) -> (s: DownloadStep)
        requires
            job_wf(old(self)@),
            old(self)@.stage is ProbingOptional,
        ensures
            forall|cancelled: bool| (final(self)@, s@) == #[trigger] transition(
                old(self)@,
                DownloadEventView::Probed { probe: probe@, cancelled },
            ),
    {
        match probe {
            FileProbe::Missing => {
                self.stage = DownloadStage::RequestingOptional;
                let url = join4(
                    "https://huggingface.co/",
                    self.repo.as_str(),
                    "/resolve/main/",
                    optional_file_name(self.file),
                );
                DownloadStep {
                    report: None,
                    action: DownloadAction::Request { url, use_token: true, timeout_secs: OPTIONAL_TIMEOUT_SECS },
                }
            },
            _ => self.advance_optional(),
        }
    }

    /// The current optional file was answered.
    fn on_optional_reply(&mut self, reply: HttpReply) -> (s: DownloadStep)
        requires
            job_wf(old(self)@),
            old(self)@.stage is RequestingOptional,
        ensures
            (final(self)@, s@) == transition(old(self)@, DownloadEventView::Replied(reply@)),
    {
        match reply {
            HttpReply::ClientFailed(e) => self.fail_with(join2("Failed to create HTTP client: ", e.as_str())),
            HttpReply::Status { success, .. } => if success {
                self.stage = DownloadStage::CreatingOptional;
                let file = String::from_str(optional_file_name(self.file));
                DownloadStep { report: None, action: DownloadAction::CreateFile { file } }
            } else {
                self.advance_optional()
            },
            HttpReply::NetworkFailed(_) => self.advance_optional(),
        }
    }

    /// One step of an optional file's creation, reading or writing.
    fn on_optional_body(&mut self, event: DownloadEvent) -> (s: DownloadStep)
        requires
            job_wf(old(self)@),
            accepts(old(self)@.stage, event@),
            old(self)@.stage is CreatingOptional || old(self)@.stage is ReadingOptional
                || old(self)@.stage is WritingOptional,
        ensures
            (final(self)@, s@) == transition(old(self)@, event@),
    {
        let name = optional_file_name(self.file);
        match event {
            DownloadEvent::FileCreated(Err(e)) => self.fail_with(join4("Failed to create file ", name, ": ", e.as_str())),
            DownloadEvent::FileCreated(Ok(())) => {
                self.stage = DownloadStage::ReadingOptional;
                DownloadStep { report: None, action: DownloadAction::ReadChunk }
            },
            DownloadEvent::ChunkRead { chunk: None, .. } => self.advance_optional(),
            DownloadEvent::ChunkRead { chunk: Some(Err(e)), .. } => self.fail_with(join4("Download error for ", name, ": ", e.as_str())),
            DownloadEvent::ChunkRead { chunk: Some(Ok(_)), .. } => {
                self.stage = DownloadStage::WritingOptional;
                DownloadStep { report: None, action: DownloadAction::WriteChunk }
            },
            DownloadEvent::ChunkWritten(Err(e)) => self.fail_with(join4("Failed to write file ", name, ": ", e.as_str())),
            _ => {
                self.stage = DownloadStage::ReadingOptional;
                DownloadStep { report: None, action: DownloadAction::ReadChunk }
            },
        }
    }

    /// Takes the event that answers the job's last action, and decides what
    /// comes next.
    pub fn step(&mut self, event: DownloadEvent) -> (s: DownloadStep)
        requires
            old(self).wf(),
            accepts(old(self)@.stage, event@),
        ensures
            (final(self)@, s@) == transition(old(self)@, event@),
            final(self).wf(),
    {
        proof {
            lemma_transition_wf(self@, event@);
        }
        match (self.stage, event) {
            (DownloadStage::CreatingDir, DownloadEvent::DirCreated(r)) => self.on_dir_created(r),
            (DownloadStage::ProbingRequired, DownloadEvent::Probed { probe, cancelled }) => {
                self.on_required_probe(probe, cancelled)
            },
            (DownloadStage::Requesting { source }, DownloadEvent::Replied(reply)) => self.on_reply(source, reply),
            (DownloadStage::CreatingFile { total_size }, DownloadEvent::FileCreated(r)) => {
                self.on_file_created(total_size, r)
            },
            (DownloadStage::Reading { total_size, downloaded }, DownloadEvent::ChunkRead { cancelled, chunk }) => {
                self.on_chunk_read(total_size, downloaded, cancelled, chunk)
            },
            (DownloadStage::Writing { total_size, downloaded, chunk }, DownloadEvent::ChunkWritten(r)) => {
                self.on_chunk_written(total_size, downloaded, chunk, r)
            },
            (DownloadStage::Verifying, DownloadEvent::Probed { probe, .. }) => self.on_verify_probe(probe),
            (DownloadStage::ProbingOptional, DownloadEvent::Probed { probe, .. }) => self.on_optional_probe(probe),
            (DownloadStage::RequestingOptional, DownloadEvent::Replied(reply)) => self.on_optional_reply(reply),
            (_, event) => self.on_optional_body(event),
        }
    }
}

} // verus!
