//! Core data model: graph input, job records, events, artifacts and the
//! response shapes computed from them.
//!
//! Fractional quantities of the service's wire format are held as scaled
//! integers: relationship confidence in thousandths (`0 ..= 1000`),
//! progress as whole percent (`0 ..= 100`), timestamps as milliseconds
//! since the Unix epoch.
use vstd::prelude::*;

verus! {

/// Events kept per job; older entries are dropped first once exceeded.
pub const MAX_JOB_EVENTS: usize = 5000;

#[derive(Debug, Clone, Copy, PartialEq, Eq, Structural)]
pub enum JobState {
    Queued,
    Running,
    Completed,
    Failed,
    Canceled,
    Expired,
}

#[derive(Debug, Clone, Copy, PartialEq, Eq, Structural)]
pub enum ExportStage {
    Queued,
    Transform,
    FramePrep,
    WriteCapsule,
    BuildSidecar,
    Finalize,
    DownloadReady,
    Failed,
    Canceled,
    Expired,
}

#[derive(Debug, Clone, Copy, PartialEq, Eq, Structural)]
pub enum ExportEventType {
    JobStarted,
    StageProgress,
    StageHeartbeat,
    JobCompleted,
    JobFailed,
    JobCanceled,
    JobExpired,
}

pub open spec fn spec_event_type_str(t: ExportEventType) -> Seq<char> {
    match t {
        ExportEventType::JobStarted => "job_started"@,
        ExportEventType::StageProgress => "stage_progress"@,
        ExportEventType::StageHeartbeat => "stage_heartbeat"@,
        ExportEventType::JobCompleted => "job_completed"@,
        ExportEventType::JobFailed => "job_failed"@,
        ExportEventType::JobCanceled => "job_canceled"@,
        ExportEventType::JobExpired => "job_expired"@,
    }
}

impl ExportEventType {
    pub fn as_str(&self) -> (r: &'static str)
        ensures
            r@ == spec_event_type_str(*self),
    {
        match self {
            Self::JobStarted => "job_started",
            Self::StageProgress => "stage_progress",
            Self::StageHeartbeat => "stage_heartbeat",
            Self::JobCompleted => "job_completed",
            Self::JobFailed => "job_failed",
            Self::JobCanceled => "job_canceled",
            Self::JobExpired => "job_expired",
        }
    }
}

/// A terminal state is absorbing: no transition leaves it.
pub open spec fn spec_is_terminal(s: JobState) -> bool {
    s == JobState::Completed || s == JobState::Failed || s == JobState::Canceled || s
        == JobState::Expired
}

pub fn is_terminal(s: JobState) -> (r: bool)
    ensures
        r == spec_is_terminal(s),
{
    match s {
        JobState::Completed | JobState::Failed | JobState::Canceled | JobState::Expired => true,
        _ => false,
    }
}

/// The stages a terminal job may rest in.
pub open spec fn spec_terminal_stage(s: ExportStage) -> bool {
    s == ExportStage::DownloadReady || s == ExportStage::Failed || s == ExportStage::Canceled || s
        == ExportStage::Expired
}

#[derive(Debug, Clone)]
pub struct ExportSourceDescriptor {
    pub source_type: String,
    pub base_name: String,
    pub display_name: String,
    pub url: Option<String>,
    pub branch: Option<String>,
    pub original_file_name: Option<String>,
    pub folder_name: Option<String>,
}

#[derive(Debug, Clone, Copy)]
pub struct ExportOptions {
    pub semantic_enabled: bool,
    pub max_snippet_chars: usize,
    pub max_node_frames: usize,
    pub max_relation_frames: usize,
}

#[derive(Debug, Clone)]
pub struct NodeProperties {
    pub name: String,
    pub file_path: String,
    pub start_line: Option<usize>,
    pub end_line: Option<usize>,
    pub language: Option<String>,
    pub is_exported: Option<bool>,
    pub heuristic_label: Option<String>,
    pub cohesion_milli: Option<i64>,
    pub symbol_count: Option<usize>,
    pub keywords: Option<Vec<String>>,
    pub description: Option<String>,
    pub enriched_by: Option<String>,
    pub process_type: Option<String>,
    pub step_count: Option<usize>,
    pub communities: Option<Vec<String>>,
    pub entry_point_id: Option<String>,
    pub terminal_id: Option<String>,
    pub entry_point_score_milli: Option<i64>,
    pub entry_point_reason: Option<String>,
}

#[derive(Debug, Clone)]
pub struct GraphNode {
    pub id: String,
    pub label: String,
    pub properties: NodeProperties,
}

#[derive(Debug, Clone)]
pub struct GraphRelationship {
    pub id: String,
    pub source_id: String,
    pub target_id: String,
    pub relation_type: String,
    /// Confidence in thousandths: `0 ..= 1000` stands for `0.0 ..= 1.0`.
    pub confidence_milli: u32,
    pub reason: String,
    pub step: Option<usize>,
}

#[derive(Debug, Clone)]
pub struct FileContent {
    pub path: String,
    pub text: String,
}

#[derive(Debug, Clone)]
pub struct ExportRequest {
    pub session_id: String,
    pub project_name: String,
    pub source: ExportSourceDescriptor,
    pub nodes: Vec<GraphNode>,
    pub relationships: Vec<GraphRelationship>,
    pub file_contents: Vec<FileContent>,
    pub options: ExportOptions,
}

#[derive(Debug)]
pub struct ExportLogEvent {
    pub seq: u64,
    pub ts_ms: u64,
    pub job_id: String,
    pub event_type: ExportEventType,
    pub stage: ExportStage,
    pub progress: u32,
    pub stage_progress: Option<u32>,
    pub emoji: String,
    pub message: String,
    pub meta_json: Option<String>,
}

#[derive(Debug)]
pub struct ExportArtifact {
    pub file_name: String,
    pub download_url: String,
    pub expires_at_ms: u64,
    pub size_bytes: u64,
}

#[derive(Debug)]
pub struct ExportErrorPayload {
    pub code: String,
    pub message: String,
}

#[derive(Debug)]
pub struct JobBackendMetadata {
    pub backend: String,
    pub runpod_job_id: Option<String>,
    pub payload_ref: Option<String>,
    pub artifact_ref: Option<String>,
    pub worker_metrics_json: Option<String>,
}

fn clone_opt_string(o: &Option<String>) -> (r: Option<String>)
    ensures
        r == *o,
{
    match o {
        Some(s) => Some(s.clone()),
        None => None,
    }
}

impl Clone for ExportLogEvent {
    fn clone(&self) -> (r: Self)
        ensures
            r == *self,
    {
        ExportLogEvent {
            seq: self.seq,
            ts_ms: self.ts_ms,
            job_id: self.job_id.clone(),
            event_type: self.event_type,
            stage: self.stage,
            progress: self.progress,
            stage_progress: self.stage_progress,
            emoji: self.emoji.clone(),
            message: self.message.clone(),
            meta_json: clone_opt_string(&self.meta_json),
        }
    }
}

impl Clone for ExportArtifact {
    fn clone(&self) -> (r: Self)
        ensures
            r == *self,
    {
        ExportArtifact {
            file_name: self.file_name.clone(),
            download_url: self.download_url.clone(),
            expires_at_ms: self.expires_at_ms,
            size_bytes: self.size_bytes,
        }
    }
}

impl Clone for ExportErrorPayload {
    fn clone(&self) -> (r: Self)
        ensures
            r == *self,
    {
        ExportErrorPayload { code: self.code.clone(), message: self.message.clone() }
    }
}

impl Clone for JobBackendMetadata {
    fn clone(&self) -> (r: Self)
        ensures
            r == *self,
    {
        JobBackendMetadata {
            backend: self.backend.clone(),
            runpod_job_id: clone_opt_string(&self.runpod_job_id),
            payload_ref: clone_opt_string(&self.payload_ref),
            artifact_ref: clone_opt_string(&self.artifact_ref),
            worker_metrics_json: clone_opt_string(&self.worker_metrics_json),
        }
    }
}

fn clone_opt_artifact(o: &Option<ExportArtifact>) -> (r: Option<ExportArtifact>)
    ensures
        r == *o,
{
    match o {
        Some(a) => Some(a.clone()),
        None => None,
    }
}

fn clone_opt_error(o: &Option<ExportErrorPayload>) -> (r: Option<ExportErrorPayload>)
    ensures
        r == *o,
{
    match o {
        Some(e) => Some(e.clone()),
        None => None,
    }
}

fn clone_opt_metadata(o: &Option<JobBackendMetadata>) -> (r: Option<JobBackendMetadata>)
    ensures
        r == *o,
{
    match o {
        Some(m) => Some(m.clone()),
        None => None,
    }
}

#[derive(Debug)]
pub struct ExportJobResponse {
    pub job_id: String,
    pub status: JobState,
    pub progress: u32,
    pub current_stage: ExportStage,
    pub stage_progress: u32,
    pub elapsed_ms: u64,
    pub last_event_seq: u64,
    pub message: Option<String>,
    pub created_at_ms: u64,
    pub updated_at_ms: u64,
    pub artifact: Option<ExportArtifact>,
    pub error: Option<ExportErrorPayload>,
    pub metadata: Option<JobBackendMetadata>,
}

impl Clone for ExportJobResponse {
    fn clone(&self) -> (r: Self)
        ensures
            r == *self,
    {
        ExportJobResponse {
            job_id: self.job_id.clone(),
            status: self.status,
            progress: self.progress,
            current_stage: self.current_stage,
            stage_progress: self.stage_progress,
            elapsed_ms: self.elapsed_ms,
            last_event_seq: self.last_event_seq,
            message: clone_opt_string(&self.message),
            created_at_ms: self.created_at_ms,
            updated_at_ms: self.updated_at_ms,
            artifact: clone_opt_artifact(&self.artifact),
            error: clone_opt_error(&self.error),
            metadata: clone_opt_metadata(&self.metadata),
        }
    }
}

#[derive(Debug, Clone)]
pub struct ExportAcceptedResponse {
    pub job_id: String,
    pub status: JobState,
    pub progress: u32,
    pub current_stage: ExportStage,
    pub stage_progress: u32,
    pub message: Option<String>,
    pub created_at_ms: u64,
}

#[derive(Debug, Clone)]
pub struct ExportEventsResponse {
    pub job_id: String,
    pub events: Vec<ExportLogEvent>,
    pub next_seq: u64,
    pub status_snapshot: ExportJobResponse,
}

/// Structured payload of a frame document, in place of its serialized
/// metadata object.
#[derive(Debug, Clone)]
pub enum FrameMeta {
    NodeFrame(NodeFrameMeta),
    RelationFrame(RelationFrameMeta),
    ManifestFrame,
    AiBibleFrame,
}

#[derive(Debug, Clone)]
pub struct NodeFrameMeta {
    pub id: String,
    pub label: String,
    pub name: String,
    pub file_path: String,
    pub start_line: Option<usize>,
    pub end_line: Option<usize>,
    pub language: Option<String>,
    pub communities: Vec<String>,
}

#[derive(Debug, Clone)]
pub struct RelationFrameMeta {
    pub id: String,
    pub relation_type: String,
    pub source_id: String,
    pub target_id: String,
    pub confidence_milli: u32,
    pub reason: String,
    pub step: Option<usize>,
}

#[derive(Debug, Clone)]
pub struct FrameDocument {
    pub title: String,
    pub label: String,
    pub text: String,
    pub uri: String,
    pub track: String,
    pub tags: Vec<String>,
    pub meta: FrameMeta,
}

#[derive(Debug)]
pub struct JobRecord {
    pub job_id: String,
    pub created_at_ms: u64,
    pub updated_at_ms: u64,
    pub status: JobState,
    pub progress: u32,
    pub message: Option<String>,
    pub request: Option<ExportRequest>,
    pub artifact: Option<ExportArtifact>,
    pub error: Option<ExportErrorPayload>,
    pub artifact_path: Option<String>,
    pub events: Vec<ExportLogEvent>,
    pub next_seq: u64,
    pub current_stage: ExportStage,
    pub stage_progress: u32,
    pub last_event_at_ms: u64,
    pub metadata: Option<JobBackendMetadata>,
}

impl JobRecord {
    /// Well-formedness of a job record; established on creation and kept by
    /// every transition.
    pub open spec fn wf(self) -> bool {
        &&& 1 <= self.next_seq
        &&& self.events.len() < self.next_seq
        &&& self.events.len() <= MAX_JOB_EVENTS
        &&& forall|i: int|
            0 <= i < self.events.len() ==> (#[trigger] self.events[i].seq) == self.next_seq
                - self.events.len() + i
        &&& forall|i: int, j: int|
            0 <= i <= j < self.events.len() ==> (#[trigger] self.events[i].ts_ms)
                <= (#[trigger] self.events[j].ts_ms)
        &&& forall|i: int|
            0 <= i < self.events.len() ==> (#[trigger] self.events[i].ts_ms)
                <= self.last_event_at_ms
        &&& self.progress <= 100
        &&& self.stage_progress <= 100
        &&& self.created_at_ms <= self.updated_at_ms
        &&& spec_is_terminal(self.status) ==> {
            &&& self.request is None
            &&& self.progress == 100
            &&& spec_terminal_stage(self.current_stage)
        }
        &&& (self.status == JobState::Completed) <==> (self.artifact is Some)
        &&& self.artifact is Some ==> self.artifact_path is Some
    }

    /// Status snapshot suitable for serialization; elapsed time never
    /// underflows when the clock reads earlier than the creation time.
    pub fn to_response(&self, now_ms: u64) -> (r: ExportJobResponse)
        requires
            self.next_seq >= 1,
        ensures
            r.job_id == self.job_id,
            r.status == self.status,
            r.progress == self.progress,
            r.current_stage == self.current_stage,
            r.stage_progress == self.stage_progress,
            r.elapsed_ms == if now_ms >= self.created_at_ms {
                now_ms - self.created_at_ms
            } else {
                0
            },
            r.last_event_seq == self.next_seq - 1,
            r.message == self.message,
            r.created_at_ms == self.created_at_ms,
            r.updated_at_ms == self.updated_at_ms,
            r.artifact == self.artifact,
            r.error == self.error,
            r.metadata == self.metadata,
    {
        let elapsed: u64 = if now_ms >= self.created_at_ms {
            now_ms - self.created_at_ms
        } else {
            0
        };
        ExportJobResponse {
            job_id: self.job_id.clone(),
            status: self.status,
            progress: self.progress,
            current_stage: self.current_stage,
            stage_progress: self.stage_progress,
            elapsed_ms: elapsed,
            last_event_seq: self.next_seq - 1,
            message: clone_opt_string(&self.message),
            created_at_ms: self.created_at_ms,
            updated_at_ms: self.updated_at_ms,
            artifact: clone_opt_artifact(&self.artifact),
            error: clone_opt_error(&self.error),
            metadata: clone_opt_metadata(&self.metadata),
        }
    }
}

} // verus!
