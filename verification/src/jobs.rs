//! Job lifecycle and per-job event log.
//!
//! A `JobRecord` is mutated only through the transitions here; each terminal
//! transition appends its own terminal event in the same step that flips the
//! status, so the event sequence number and the record never disagree.
//! Once a record is terminal it accepts no further events; in particular late
//! progress events after a cancel or an expiry are silently dropped.
use vstd::prelude::*;
use vstd::string::*;

use crate::models::{
    is_terminal, spec_is_terminal, spec_terminal_stage, ExportArtifact, ExportErrorPayload,
    ExportEventType, ExportLogEvent, ExportRequest, ExportStage, JobBackendMetadata, JobRecord,
    JobState, MAX_JOB_EVENTS,
};

verus! {

/// Display glyph attached to an event.
pub open spec fn spec_stage_emoji(stage: ExportStage, event_type: ExportEventType) -> Seq<char> {
    match event_type {
        ExportEventType::JobCompleted => "✅"@,
        ExportEventType::JobFailed => "🔥"@,
        ExportEventType::JobCanceled => "🛑"@,
        ExportEventType::JobExpired => "⏳"@,
        ExportEventType::StageHeartbeat => "⏳"@,
        ExportEventType::JobStarted | ExportEventType::StageProgress => match stage {
            ExportStage::Queued => "🧾"@,
            ExportStage::Transform => "🧠"@,
            ExportStage::FramePrep => "🧱"@,
            ExportStage::WriteCapsule => "💾"@,
            ExportStage::BuildSidecar => "🗂️"@,
            ExportStage::Finalize => "📦"@,
            ExportStage::DownloadReady => "✅"@,
            ExportStage::Failed => "🔥"@,
            ExportStage::Canceled => "🛑"@,
            ExportStage::Expired => "⏳"@,
        },
    }
}

pub fn stage_emoji(stage: &ExportStage, event_type: &ExportEventType) -> (r: &'static str)
    ensures
        r@ == spec_stage_emoji(*stage, *event_type),
{
    match event_type {
        ExportEventType::JobCompleted => "✅",
        ExportEventType::JobFailed => "🔥",
        ExportEventType::JobCanceled => "🛑",
        ExportEventType::JobExpired => "⏳",
        ExportEventType::StageHeartbeat => "⏳",
        ExportEventType::JobStarted | ExportEventType::StageProgress => match stage {
            ExportStage::Queued => "🧾",
            ExportStage::Transform => "🧠",
            ExportStage::FramePrep => "🧱",
            ExportStage::WriteCapsule => "💾",
            ExportStage::BuildSidecar => "🗂️",
            ExportStage::Finalize => "📦",
            ExportStage::DownloadReady => "✅",
            ExportStage::Failed => "🔥",
            ExportStage::Canceled => "🛑",
            ExportStage::Expired => "⏳",
        },
    }
}

pub open spec fn spec_clamp100(p: int) -> int {
    if p > 100 {
        100
    } else {
        p
    }
}

/// The effective clock of a mutation: the record's clocks never run
/// backwards, so a reading earlier than the last event is raised to it.
pub open spec fn spec_event_ts(j: JobRecord, now_ms: u64) -> u64 {
    if now_ms > j.last_event_at_ms {
        now_ms
    } else {
        j.last_event_at_ms
    }
}

/// `out` is exactly the stored window past `since_seq`: the contiguous
/// slice of `events` beginning at the first entry with a greater sequence
/// number, cut to `limit` entries.
pub open spec fn spec_replay_window(
    events: Seq<ExportLogEvent>,
    since_seq: u64,
    limit: int,
    out: Seq<ExportLogEvent>,
) -> bool {
    exists|s: int|
        {
            &&& 0 <= s <= events.len()
            &&& out == events.subrange(
                s,
                if s + limit <= events.len() {
                    s + limit
                } else {
                    events.len() as int
                },
            )
            &&& (forall|k: int| 0 <= k < s ==> (#[trigger] events[k].seq) <= since_seq)
            &&& (s < events.len() ==> events[s].seq > since_seq)
        }
}

/// Outcome of a worker claiming a queued job.
pub enum ClaimOutcome {
    /// The job moved to running; the request payload is handed to the worker.
    Started(ExportRequest),
    /// The job is not in the queued state (canceled before the worker got
    /// to it, or already picked up); nothing changed.
    Skip,
    /// The job is queued but its request payload is gone; nothing changed.
    MissingPayload,
}

impl JobRecord {
    /// Fresh record for a newly submitted request.
    pub fn new_record(job_id: String, request: ExportRequest, backend: String, now_ms: u64) -> (r:
        JobRecord)
        ensures
            r.wf(),
            r.job_id == job_id,
            r.created_at_ms == now_ms,
            r.updated_at_ms == now_ms,
            r.status == JobState::Queued,
            r.progress == 0,
            r.message.unwrap()@ == "Queued for export"@,
            r.request == Some(request),
            r.artifact is None,
            r.error is None,
            r.artifact_path is None,
            r.events.len() == 0,
            r.next_seq == 1,
            r.current_stage == ExportStage::Queued,
            r.stage_progress == 0,
            r.last_event_at_ms == now_ms,
            r.metadata.unwrap().backend == backend,
            r.metadata.unwrap().runpod_job_id is None,
    {
        JobRecord {
            job_id,
            created_at_ms: now_ms,
            updated_at_ms: now_ms,
            status: JobState::Queued,
            progress: 0,
            message: Some(String::from_str("Queued for export")),
            request: Some(request),
            artifact: None,
            error: None,
            artifact_path: None,
            events: Vec::new(),
            next_seq: 1,
            current_stage: ExportStage::Queued,
            stage_progress: 0,
            last_event_at_ms: now_ms,
            metadata: Some(
                JobBackendMetadata {
                    backend,
                    runpod_job_id: None,
                    payload_ref: None,
                    artifact_ref: None,
                    worker_metrics_json: None,
                },
            ),
        }
    }

    /// Builds the next event, appends it to the bounded ring (drop-oldest),
    /// bumps `next_seq` and updates the record's stage and progress fields;
    /// all in one step, so the sequence number is issued exactly once.
    fn push_event(
        &mut self,
        event_type: ExportEventType,
        stage: ExportStage,
        progress: u32,
        stage_progress: Option<u32>,
        message: String,
        meta_json: Option<String>,
        now_ms: u64,
    ) -> (ev: ExportLogEvent)
        requires
            old(self).wf(),
            old(self).next_seq < u64::MAX,
            spec_is_terminal(old(self).status) ==> progress == 100 && spec_terminal_stage(stage),
        ensures
            final(self).wf(),
            ev.seq == old(self).next_seq,
            ev.ts_ms == spec_event_ts(*old(self), now_ms),
            ev.job_id == old(self).job_id,
            ev.event_type == event_type,
            ev.stage == stage,
            ev.progress == spec_clamp100(progress as int),
            ev.stage_progress == Some(
                (match stage_progress {
                    Some(v) => spec_clamp100(v as int),
                    None => old(self).stage_progress as int,
                }) as u32,
            ),
            ev.emoji@ == spec_stage_emoji(stage, event_type),
            ev.message == message,
            ev.meta_json == meta_json,
            final(self).events@ == if old(self).events.len() < MAX_JOB_EVENTS {
                old(self).events@.push(ev)
            } else {
                old(self).events@.drop_first().push(ev)
            },
            final(self).next_seq == old(self).next_seq + 1,
            final(self).progress == spec_clamp100(progress as int),
            final(self).current_stage == stage,
            final(self).stage_progress == ev.stage_progress.unwrap(),
            final(self).message == Some(message),
            final(self).updated_at_ms == if spec_event_ts(*old(self), now_ms) > old(
                self,
            ).updated_at_ms {
                spec_event_ts(*old(self), now_ms)
            } else {
                old(self).updated_at_ms
            },
            final(self).last_event_at_ms == spec_event_ts(*old(self), now_ms),
            final(self).status == old(self).status,
            final(self).request == old(self).request,
            final(self).artifact == old(self).artifact,
            final(self).artifact_path == old(self).artifact_path,
            final(self).error == old(self).error,
            final(self).metadata == old(self).metadata,
            final(self).job_id == old(self).job_id,
            final(self).created_at_ms == old(self).created_at_ms,
    {
        let eff: u64 = if now_ms > self.last_event_at_ms {
            now_ms
        } else {
            self.last_event_at_ms
        };
        let clamped_progress: u32 = if progress > 100 {
            100
        } else {
            progress
        };
        let resolved_sp: u32 = match stage_progress {
            Some(v) => if v > 100 {
                100
            } else {
                v
            },
            None => self.stage_progress,
        };
        let ev = ExportLogEvent {
            seq: self.next_seq,
            ts_ms: eff,
            job_id: self.job_id.clone(),
            event_type,
            stage,
            progress: clamped_progress,
            stage_progress: Some(resolved_sp),
            emoji: String::from_str(stage_emoji(&stage, &event_type)),
            message,
            meta_json,
        };
        if self.events.len() >= MAX_JOB_EVENTS {
            self.events.remove(0);
        }
        self.events.push(ev.clone());
        self.next_seq = self.next_seq + 1;
        self.progress = clamped_progress;
        self.current_stage = stage;
        self.stage_progress = resolved_sp;
        self.message = Some(ev.message.clone());
        if eff > self.updated_at_ms {
            self.updated_at_ms = eff;
        }
        self.last_event_at_ms = eff;
        ev
    }

    /// Appends a progress or heartbeat event. A terminal record accepts no
    /// further events (the terminal transitions append their own), so a late
    /// event after a cancel or an expiry is dropped and `None` returned.
    pub fn append_event(
        &mut self,
        event_type: ExportEventType,
        stage: ExportStage,
        progress: u32,
        stage_progress: Option<u32>,
        message: String,
        meta_json: Option<String>,
        now_ms: u64,
    ) -> (r: Option<ExportLogEvent>)
        requires
            old(self).wf(),
            old(self).next_seq < u64::MAX,
        ensures
            final(self).wf(),
            final(self).job_id == old(self).job_id,
            final(self).created_at_ms == old(self).created_at_ms,
            final(self).status == old(self).status,
            spec_is_terminal(old(self).status) ==> r is None && *final(self) == *old(self),
            !spec_is_terminal(old(self).status) ==> {
                &&& r is Some
                &&& r.unwrap().seq == old(self).next_seq
                &&& r.unwrap().event_type == event_type
                &&& r.unwrap().stage == stage
                &&& r.unwrap().progress == spec_clamp100(progress as int)
                &&& r.unwrap().ts_ms == spec_event_ts(*old(self), now_ms)
                &&& r.unwrap().message == message
                &&& r.unwrap().meta_json == meta_json
                &&& final(self).next_seq == old(self).next_seq + 1
                &&& final(self).events@ == if old(self).events.len() < MAX_JOB_EVENTS {
                    old(self).events@.push(r.unwrap())
                } else {
                    old(self).events@.drop_first().push(r.unwrap())
                }
                &&& final(self).progress == spec_clamp100(progress as int)
                &&& final(self).current_stage == stage
                &&& final(self).stage_progress == (match stage_progress {
                    Some(v) => spec_clamp100(v as int),
                    None => old(self).stage_progress as int,
                })
                &&& final(self).message == Some(message)
                &&& final(self).last_event_at_ms == spec_event_ts(*old(self), now_ms)
                &&& final(self).status == old(self).status
                &&& final(self).request == old(self).request
                &&& final(self).artifact == old(self).artifact
                &&& final(self).artifact_path == old(self).artifact_path
                &&& final(self).error == old(self).error
                &&& final(self).metadata == old(self).metadata
            },
    {
        if is_terminal(self.status) {
            None
        } else {
            Some(
                self.push_event(
                    event_type,
                    stage,
                    progress,
                    stage_progress,
                    message,
                    meta_json,
                    now_ms,
                ),
            )
        }
    }

    /// Worker claim: moves a queued job to running, hands out the request
    /// payload, and appends the start event.
    pub fn claim(&mut self, progress: u32, message: String, now_ms: u64) -> (r: ClaimOutcome)
        requires
            old(self).wf(),
            old(self).next_seq < u64::MAX,
            progress <= 100,
        ensures
            final(self).wf(),
            final(self).job_id == old(self).job_id,
            final(self).created_at_ms == old(self).created_at_ms,
            old(self).status != JobState::Queued ==> r is Skip && *final(self) == *old(self),
            old(self).status == JobState::Queued && old(self).request is None ==> r
                is MissingPayload && *final(self) == *old(self),
            old(self).status == JobState::Queued && old(self).request is Some ==> {
                &&& r is Started
                &&& r->Started_0 == old(self).request.unwrap()
                &&& final(self).status == JobState::Running
                &&& final(self).request is None
                &&& final(self).progress == progress
                &&& final(self).current_stage == ExportStage::Transform
                &&& final(self).error is None
                &&& final(self).next_seq == old(self).next_seq + 1
                &&& final(self).events.len() > 0
                &&& final(self).events@.last().event_type == ExportEventType::JobStarted
                &&& final(self).events@.last().message == message
            },
    {
        match self.status {
            JobState::Queued => {},
            _ => { return ClaimOutcome::Skip },
        }
        let request = match self.request.take() {
            Some(request) => request,
            None => { return ClaimOutcome::MissingPayload },
        };
        self.status = JobState::Running;
        self.error = None;
        self.push_event(
            ExportEventType::JobStarted,
            ExportStage::Transform,
            progress,
            Some(0),
            message,
            None,
            now_ms,
        );
        ClaimOutcome::Started(request)
    }

    /// Terminal transition to completed: installs the artifact descriptor,
    /// drops the request payload and appends the completion event.
    /// Returns false (and changes nothing) unless the job is running, so a
    /// cancel that won the race is never overwritten.
    pub fn complete(
        &mut self,
        file_name: String,
        download_url: String,
        size_bytes: u64,
        expires_at_ms: u64,
        artifact_path: String,
        meta_json: Option<String>,
        now_ms: u64,
    ) -> (r: bool)
        requires
            old(self).wf(),
            old(self).next_seq < u64::MAX,
        ensures
            final(self).wf(),
            final(self).job_id == old(self).job_id,
            final(self).created_at_ms == old(self).created_at_ms,
            r == (old(self).status == JobState::Running),
            !r ==> *final(self) == *old(self),
            r ==> {
                &&& final(self).status == JobState::Completed
                &&& final(self).progress == 100
                &&& final(self).current_stage == ExportStage::DownloadReady
                &&& final(self).stage_progress == 100
                &&& final(self).request is None
                &&& final(self).error is None
                &&& final(self).artifact == Some(
                    ExportArtifact { file_name, download_url, expires_at_ms, size_bytes },
                )
                &&& final(self).artifact_path == Some(artifact_path)
                &&& final(self).events.len() > 0
                &&& final(self).events@.last().event_type == ExportEventType::JobCompleted
                &&& final(self).events@.last().seq == old(self).next_seq
                &&& final(self).next_seq == old(self).next_seq + 1
            },
    {
        match self.status {
            JobState::Running => {},
            _ => { return false },
        }
        self.status = JobState::Completed;
        self.request = None;
        self.error = None;
        self.artifact = Some(
            ExportArtifact { file_name, download_url, expires_at_ms, size_bytes },
        );
        self.artifact_path = Some(artifact_path);
        self.progress = 100;
        self.stage_progress = 100;
        self.current_stage = ExportStage::DownloadReady;
        self.push_event(
            ExportEventType::JobCompleted,
            ExportStage::DownloadReady,
            100,
            Some(100),
            String::from_str("Export completed"),
            meta_json,
            now_ms,
        );
        true
    }

    /// Terminal transition to failed: installs the error descriptor and
    /// appends the failure event. A job already terminal is left alone.
    pub fn fail(&mut self, error_message: String, meta_json: Option<String>, now_ms: u64) -> (r:
        bool)
        requires
            old(self).wf(),
            old(self).next_seq < u64::MAX,
        ensures
            final(self).wf(),
            final(self).job_id == old(self).job_id,
            final(self).created_at_ms == old(self).created_at_ms,
            r == !spec_is_terminal(old(self).status),
            !r ==> *final(self) == *old(self),
            r ==> {
                &&& final(self).status == JobState::Failed
                &&& final(self).progress == 100
                &&& final(self).current_stage == ExportStage::Failed
                &&& final(self).stage_progress == 100
                &&& final(self).request is None
                &&& final(self).artifact is None
                &&& final(self).error is Some
                &&& final(self).error.unwrap().code@ == "EXPORT_FAILED"@
                &&& final(self).error.unwrap().message == error_message
                &&& final(self).events.len() > 0
                &&& final(self).events@.last().event_type == ExportEventType::JobFailed
                &&& final(self).next_seq == old(self).next_seq + 1
            },
    {
        if is_terminal(self.status) {
            return false;
        }
        self.status = JobState::Failed;
        self.request = None;
        self.artifact = None;
        self.progress = 100;
        self.stage_progress = 100;
        self.current_stage = ExportStage::Failed;
        self.error = Some(
            ExportErrorPayload {
                code: String::from_str("EXPORT_FAILED"),
                message: error_message,
            },
        );
        self.push_event(
            ExportEventType::JobFailed,
            ExportStage::Failed,
            100,
            Some(100),
            String::from_str("Export failed"),
            meta_json,
            now_ms,
        );
        true
    }

    /// Cancel: single-point transition from queued or running to canceled.
    /// Returns the on-disk artifact location to delete, if one was written.
    /// On a terminal job nothing changes (cancellation is idempotent).
    pub fn cancel(&mut self, now_ms: u64) -> (r: Option<Option<String>>)
        requires
            old(self).wf(),
            old(self).next_seq < u64::MAX,
        ensures
            final(self).wf(),
            final(self).job_id == old(self).job_id,
            final(self).created_at_ms == old(self).created_at_ms,
            r is Some <==> (old(self).status == JobState::Queued || old(self).status
                == JobState::Running),
            r is None ==> *final(self) == *old(self),
            r is Some ==> {
                &&& r.unwrap() == old(self).artifact_path
                &&& final(self).status == JobState::Canceled
                &&& final(self).progress == 100
                &&& final(self).current_stage == ExportStage::Canceled
                &&& final(self).stage_progress == 100
                &&& final(self).request is None
                &&& final(self).artifact is None
                &&& final(self).artifact_path is None
                &&& final(self).error is None
                &&& final(self).events.len() > 0
                &&& final(self).events@.last().event_type == ExportEventType::JobCanceled
                &&& final(self).next_seq == old(self).next_seq + 1
            },
    {
        match self.status {
            JobState::Queued | JobState::Running => {},
            _ => { return None },
        }
        self.status = JobState::Canceled;
        self.request = None;
        self.error = None;
        self.artifact = None;
        self.progress = 100;
        self.stage_progress = 100;
        self.current_stage = ExportStage::Canceled;
        let path = self.artifact_path.take();
        self.push_event(
            ExportEventType::JobCanceled,
            ExportStage::Canceled,
            100,
            Some(100),
            String::from_str("Export canceled"),
            None,
            now_ms,
        );
        Some(path)
    }

    /// Retention expiry of a completed job: clears the artifact, empties the
    /// event ring and resets the sequence counter. Returns the artifact
    /// location for out-of-lock deletion.
    pub fn expire(&mut self, now_ms: u64) -> (r: Option<String>)
        requires
            old(self).wf(),
            old(self).status == JobState::Completed,
        ensures
            final(self).wf(),
            r == old(self).artifact_path,
            final(self).status == JobState::Expired,
            final(self).progress == 100,
            final(self).current_stage == ExportStage::Expired,
            final(self).stage_progress == 100,
            final(self).artifact is None,
            final(self).artifact_path is None,
            final(self).request is None,
            final(self).events.len() == 0,
            final(self).next_seq == 1,
            final(self).job_id == old(self).job_id,
    {
        let eff: u64 = if now_ms > self.last_event_at_ms {
            now_ms
        } else {
            self.last_event_at_ms
        };
        self.status = JobState::Expired;
        self.progress = 100;
        self.current_stage = ExportStage::Expired;
        self.stage_progress = 100;
        self.message = Some(String::from_str("Artifact expired and removed"));
        self.artifact = None;
        let path = self.artifact_path.take();
        self.events.clear();
        self.next_seq = 1;
        if eff > self.updated_at_ms {
            self.updated_at_ms = eff;
        }
        self.last_event_at_ms = eff;
        path
    }

    /// Historical replay: the events with `seq > since_seq`, oldest first,
    /// at most `limit` of them. The result is a contiguous slice of the log
    /// beginning at the first event past `since_seq`.
    pub fn events_after(&self, since_seq: u64, limit: usize) -> (r: Vec<ExportLogEvent>)
        requires
            self.wf(),
            limit >= 1,
        ensures
            r.len() <= limit,
            forall|i: int| 0 <= i < r.len() ==> (#[trigger] r[i].seq) > since_seq,
            forall|i: int| 0 <= i < r.len() ==> (#[trigger] r[i].seq) == r[0].seq + i,
            spec_replay_window(self.events@, since_seq, limit as int, r@),
    {
        let ghost evs = self.events@;
        let mut start: usize = 0;
        while start < self.events.len() && self.events[start].seq <= since_seq
            invariant
                self.wf(),
                0 <= start <= self.events.len(),
                forall|k: int| 0 <= k < start ==> (#[trigger] self.events[k].seq) <= since_seq,
            decreases self.events.len() - start,
        {
            start += 1;
        }
        let end: usize = if self.events.len() - start >= limit {
            start + limit
        } else {
            self.events.len()
        };
        let mut out: Vec<ExportLogEvent> = Vec::new();
        let mut idx: usize = start;
        while idx < end
            invariant
                self.wf(),
                start <= idx <= end <= self.events.len(),
                end - start <= limit,
                out@ =~= self.events@.subrange(start as int, idx as int),
            decreases end - idx,
        {
            let ev = &self.events[idx];
            out.push(ev.clone());
            idx += 1;
            proof {
                assert(out@ =~= self.events@.subrange(start as int, idx as int));
            }
        }
        proof {
            assert(forall|i: int|
                0 <= i < out.len() ==> (#[trigger] out[i].seq) == self.events[start + i].seq);
            assert(forall|i: int| 0 <= i < out.len() ==> (#[trigger] out[i].seq) > since_seq) by {
                assert(forall|k: int|
                    start <= k < self.events.len() ==> (#[trigger] self.events[k].seq)
                        == self.next_seq - self.events.len() + k);
            }
            assert(out@ == self.events@.subrange(
                start as int,
                if start + limit <= self.events.len() {
                    start as int + limit
                } else {
                    self.events.len() as int
                },
            ));
            assert(spec_replay_window(self.events@, since_seq, limit as int, out@));
        }
        out
    }
}

/// The event sequence of a well-formed record is gap-free: seq numbers run
/// strictly ascending by one and end exactly at `next_seq - 1`; while no
/// entry has been dropped from the ring, they start at 1.
pub proof fn lemma_event_seqs_contiguous(j: JobRecord)
    requires
        j.wf(),
    ensures
        forall|i: int|
            0 <= i < j.events.len() - 1 ==> (#[trigger] j.events[i + 1].seq) == j.events[i].seq + 1,
        j.events.len() > 0 ==> j.events[j.events.len() - 1].seq == j.next_seq - 1,
        j.events.len() == j.next_seq - 1 ==> forall|i: int|
            0 <= i < j.events.len() ==> (#[trigger] j.events[i].seq) == i + 1,
{
}

/// A terminal record holds no request payload, reads 100 percent progress
/// and rests in a terminal stage.
pub proof fn lemma_terminal_state_settled(j: JobRecord)
    requires
        j.wf(),
        spec_is_terminal(j.status),
    ensures
        j.request is None,
        j.progress == 100,
        spec_terminal_stage(j.current_stage),
{
}

/// Event timestamps never decrease along the log: any earlier event carries
/// a timestamp at most that of any later one.
pub proof fn lemma_event_ts_monotone(j: JobRecord, i: int, k: int)
    requires
        j.wf(),
        0 <= i <= k < j.events.len(),
    ensures
        j.events[i].ts_ms <= j.events[k].ts_ms,
{
}

} // verus!
