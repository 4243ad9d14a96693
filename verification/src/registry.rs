//! Job registry: sole custodian of the job records. Identifiers are unique;
//! every record stays well-formed through every operation.
use vstd::prelude::*;
use vstd::string::*;

use crate::jobs::{spec_clamp100, spec_event_ts, spec_replay_window, ClaimOutcome};
use crate::models::{
    spec_is_terminal, ExportEventType, ExportEventsResponse, ExportJobResponse, ExportLogEvent,
    ExportRequest, ExportStage, JobRecord, JobState, MAX_JOB_EVENTS,
};

verus! {

/// Relies on uuid::Uuid::new_v4 and its Display form: a freshly generated
/// random version-4 identifier, rendered hyphenated. Nothing is promised of
/// the value; the registry checks for collisions itself.
#[verifier::external_body]
fn new_job_id() -> (r: String) {
    uuid::Uuid::new_v4().to_string()
}

/// Default number of events served by a historical fetch.
pub const EVENTS_DEFAULT_LIMIT: usize = 200;

/// Hard cap on the number of events served by a historical fetch.
pub const EVENTS_MAX_LIMIT: usize = 2000;

/// Query parameters of a historical events fetch.
#[derive(Debug, Clone, Copy)]
pub struct EventsQueryParams {
    pub since_seq: Option<u64>,
    pub limit: Option<usize>,
}

impl EventsQueryParams {
    /// Applies the defaults: replay from the beginning, the default page
    /// size when none was asked for.
    pub fn resolve(&self) -> (r: (u64, usize))
        ensures
            r.0 == (match self.since_seq {
                Some(v) => v as int,
                None => 0,
            }),
            r.1 == (match self.limit {
                Some(v) => v as int,
                None => EVENTS_DEFAULT_LIMIT as int,
            }),
    {
        (
            match self.since_seq {
                Some(v) => v,
                None => 0,
            },
            match self.limit {
                Some(v) => v,
                None => EVENTS_DEFAULT_LIMIT,
            },
        )
    }
}

/// Outcome of a historical events fetch.
pub enum EventsOutcome {
    /// No job under this identifier.
    NotFound,
    /// The job has expired; its log is gone.
    Gone,
    /// The events after the requested sequence number.
    Events(ExportEventsResponse),
}

/// Outcome of resolving an artifact download.
pub enum DownloadOutcome {
    /// No job under this identifier.
    NotFound,
    /// The job has not completed yet.
    NotReady,
    /// The job completed but the artifact location is gone.
    Missing,
    /// Location on disk and download file name of the artifact.
    Ready { path: String, file_name: String },
}

/// A completed job whose artifact has reached its expiry time.
pub open spec fn spec_expiry_due(j: JobRecord, now_ms: u64) -> bool {
    &&& j.status == JobState::Completed
    &&& j.artifact is Some
    &&& j.artifact.unwrap().expires_at_ms <= now_ms
}

pub struct JobTable {
    pub jobs: Vec<JobRecord>,
}

/// Effect of a cancel on the table: the identified record either took the
/// single-point transition to canceled (when it was queued or running with
/// room in its sequence counter) or, already terminal, stayed untouched;
/// everything else is unchanged and the snapshot mirrors the record.
pub open spec fn spec_cancel_effect(
    pre: JobTable,
    post: JobTable,
    id: Seq<char>,
    resp: ExportJobResponse,
    path: Option<String>,
) -> bool {
    exists|i: int|
        {
            &&& 0 <= i < pre.jobs.len()
            &&& (#[trigger] pre.jobs[i].job_id@) == id
            &&& post.jobs@ == pre.jobs@.update(i, post.jobs[i])
            &&& (pre.jobs[i].next_seq < u64::MAX && (pre.jobs[i].status == JobState::Queued
                || pre.jobs[i].status == JobState::Running)) ==> {
                &&& post.jobs[i].status == JobState::Canceled
                &&& post.jobs[i].current_stage == ExportStage::Canceled
                &&& post.jobs[i].progress == 100
                &&& post.jobs[i].stage_progress == 100
                &&& post.jobs[i].request is None
                &&& post.jobs[i].artifact is None
                &&& post.jobs[i].artifact_path is None
                &&& post.jobs[i].next_seq == pre.jobs[i].next_seq + 1
                &&& post.jobs[i].events.len() > 0
                &&& post.jobs[i].events@.last().event_type == ExportEventType::JobCanceled
                &&& path == pre.jobs[i].artifact_path
            }
            &&& spec_is_terminal(pre.jobs[i].status) ==> post.jobs[i] == pre.jobs[i] && path
                is None
            &&& resp.status == post.jobs[i].status
            &&& resp.progress == post.jobs[i].progress
        }
}

/// Effect of a successful completion: the identified record was running
/// and took the terminal transition to completed, installing exactly the
/// given artifact descriptor and appending the completion event.
pub open spec fn spec_complete_effect(
    pre: JobTable,
    post: JobTable,
    id: Seq<char>,
    file_name: String,
    download_url: String,
    size_bytes: u64,
    expires_at_ms: u64,
    artifact_path: String,
) -> bool {
    exists|i: int|
        {
            &&& 0 <= i < pre.jobs.len()
            &&& (#[trigger] pre.jobs[i].job_id@) == id
            &&& pre.jobs[i].status == JobState::Running
            &&& post.jobs@ == pre.jobs@.update(i, post.jobs[i])
            &&& post.jobs[i].status == JobState::Completed
            &&& post.jobs[i].progress == 100
            &&& post.jobs[i].current_stage == ExportStage::DownloadReady
            &&& post.jobs[i].stage_progress == 100
            &&& post.jobs[i].request is None
            &&& post.jobs[i].error is None
            &&& post.jobs[i].artifact == Some(
                crate::models::ExportArtifact { file_name, download_url, expires_at_ms, size_bytes },
            )
            &&& post.jobs[i].artifact_path == Some(artifact_path)
            &&& post.jobs[i].next_seq == pre.jobs[i].next_seq + 1
            &&& post.jobs[i].events.len() > 0
            &&& post.jobs[i].events@.last().event_type == ExportEventType::JobCompleted
            &&& post.jobs[i].events@.last().seq == pre.jobs[i].next_seq
        }
}

/// Effect of a successful failure transition: the identified record was
/// live and became failed with the exact error descriptor and the failure
/// event appended.
pub open spec fn spec_fail_effect(
    pre: JobTable,
    post: JobTable,
    id: Seq<char>,
    error_message: String,
) -> bool {
    exists|i: int|
        {
            &&& 0 <= i < pre.jobs.len()
            &&& (#[trigger] pre.jobs[i].job_id@) == id
            &&& !spec_is_terminal(pre.jobs[i].status)
            &&& post.jobs@ == pre.jobs@.update(i, post.jobs[i])
            &&& post.jobs[i].status == JobState::Failed
            &&& post.jobs[i].progress == 100
            &&& post.jobs[i].current_stage == ExportStage::Failed
            &&& post.jobs[i].stage_progress == 100
            &&& post.jobs[i].error is Some
            &&& post.jobs[i].error.unwrap().code@ == "EXPORT_FAILED"@
            &&& post.jobs[i].error.unwrap().message == error_message
            &&& post.jobs[i].request is None
            &&& post.jobs[i].artifact is None
            &&& post.jobs[i].next_seq == pre.jobs[i].next_seq + 1
            &&& post.jobs[i].events.len() > 0
            &&& post.jobs[i].events@.last().event_type == ExportEventType::JobFailed
        }
}

impl JobTable {
    pub open spec fn wf(self) -> bool {
        &&& forall|i: int| 0 <= i < self.jobs.len() ==> (#[trigger] self.jobs[i]).wf()
        &&& forall|i: int, j: int|
            0 <= i < j < self.jobs.len() ==> (#[trigger] self.jobs[i].job_id@)
                != (#[trigger] self.jobs[j].job_id@)
    }

    pub open spec fn spec_has_job(self, id: Seq<char>) -> bool {
        exists|i: int| 0 <= i < self.jobs.len() && (#[trigger] self.jobs[i].job_id@) == id
    }

    pub fn new_table() -> (r: JobTable)
        ensures
            r.wf(),
            r.jobs.len() == 0,
    {
        JobTable { jobs: Vec::new() }
    }

    /// Index of the record with this identifier, if present.
    pub fn find_index(&self, job_id: &String) -> (r: Option<usize>)
        requires
            self.wf(),
        ensures
            match r {
                Some(i) => i < self.jobs.len() && self.jobs[i as int].job_id@ == job_id@,
                None => !self.spec_has_job(job_id@),
            },
    {
        let mut i: usize = 0;
        while i < self.jobs.len()
            invariant
                self.wf(),
                0 <= i <= self.jobs.len(),
                forall|k: int| 0 <= k < i ==> (#[trigger] self.jobs[k].job_id@) != job_id@,
            decreases self.jobs.len() - i,
        {
            if self.jobs[i].job_id.eq(job_id) {
                return Some(i);
            }
            i += 1;
        }
        None
    }

    /// Adds a record under its identifier; fails if the identifier is
    /// already present.
    pub fn create(&mut self, record: JobRecord) -> (r: bool)
        requires
            old(self).wf(),
            record.wf(),
        ensures
            final(self).wf(),
            r == !old(self).spec_has_job(record.job_id@),
            r ==> final(self).jobs@ == old(self).jobs@.push(record),
            !r ==> *final(self) == *old(self),
    {
        if self.find_index(&record.job_id).is_some() {
            return false;
        }
        self.jobs.push(record);
        true
    }

    /// Removes the record with this identifier (used to roll back a
    /// submission whose queue hand-off failed): exactly that record goes,
    /// every other record survives in place.
    pub fn remove_job(&mut self, job_id: &String) -> (r: bool)
        requires
            old(self).wf(),
        ensures
            final(self).wf(),
            r == old(self).spec_has_job(job_id@),
            !final(self).spec_has_job(job_id@),
            !r ==> *final(self) == *old(self),
            r ==> exists|i: int|
                {
                    &&& 0 <= i < old(self).jobs.len()
                    &&& (#[trigger] old(self).jobs[i].job_id@) == job_id@
                    &&& final(self).jobs@ == old(self).jobs@.remove(i)
                },
    {
        match self.find_index(job_id) {
            Some(i) => {
                self.jobs.remove(i);
                proof {
                    assert(forall|k: int|
                        0 <= k < self.jobs.len() ==> (#[trigger] self.jobs[k].job_id@)
                            != job_id@);
                    assert(old(self).jobs[i as int].job_id@ == job_id@);
                }
                true
            },
            None => false,
        }
    }

    /// Creates a fresh record for a submitted request under a newly drawn
    /// identifier. Fails only on an identifier collision.
    pub fn create_job(
        &mut self,
        request: ExportRequest,
        backend: String,
        now_ms: u64,
    ) -> (r: Option<String>)
        requires
            old(self).wf(),
        ensures
            final(self).wf(),
            match r {
                Some(id) => {
                    &&& final(self).spec_has_job(id@)
                    &&& final(self).jobs.len() == old(self).jobs.len() + 1
                    &&& final(self).jobs@.last().job_id == id
                    &&& final(self).jobs@.last().status == JobState::Queued
                    &&& final(self).jobs@.last().request == Some(request)
                    &&& final(self).jobs@.last().created_at_ms == now_ms
                    &&& final(self).jobs@.last().progress == 0
                    &&& final(self).jobs@.last().current_stage == ExportStage::Queued
                    &&& final(self).jobs@.last().stage_progress == 0
                    &&& final(self).jobs@.last().next_seq == 1
                    &&& final(self).jobs@.last().events.len() == 0
                    &&& final(self).jobs@.last().artifact is None
                    &&& final(self).jobs@.last().artifact_path is None
                    &&& final(self).jobs@.last().error is None
                    &&& final(self).jobs@.last().message.unwrap()@ == "Queued for export"@
                    &&& final(self).jobs@.last().metadata.unwrap().backend == backend
                    &&& final(self).jobs@.subrange(0, old(self).jobs.len() as int) == old(self).jobs@
                },
                None => *final(self) == *old(self),
            },
    {
        let job_id = new_job_id();
        let record = JobRecord::new_record(job_id.clone(), request, backend, now_ms);
        if self.create(record) {
            Some(job_id)
        } else {
            None
        }
    }

    /// Cancel handler: transitions a queued or running job to canceled and
    /// returns the fresh snapshot together with the artifact location to
    /// delete, if any. On an already terminal job the snapshot alone comes
    /// back (idempotent); on an unknown identifier, nothing.
    pub fn cancel_job(&mut self, job_id: &String, now_ms: u64) -> (r: Option<
        (ExportJobResponse, Option<String>),
    >)
        requires
            old(self).wf(),
        ensures
            final(self).wf(),
            r is Some <==> old(self).spec_has_job(job_id@),
            r is None ==> *final(self) == *old(self),
            r is Some ==> spec_cancel_effect(
                *old(self),
                *final(self),
                job_id@,
                r.unwrap().0,
                r.unwrap().1,
            ),
    {
        let i = match self.find_index(job_id) {
            Some(i) => i,
            None => { return None },
        };
        let ghost oldjobs = self.jobs@;
        let mut job = self.jobs.remove(i);
        let outcome = if job.next_seq < u64::MAX {
            job.cancel(now_ms)
        } else {
            None
        };
        let path = match outcome {
            Some(p) => p,
            None => None,
        };
        let resp = job.to_response(now_ms);
        self.jobs.insert(i, job);
        proof {
            assert(self.jobs@ =~= oldjobs.update(i as int, self.jobs[i as int]));
            assert(old(self).jobs[i as int].job_id@ == job_id@);
            assert(spec_cancel_effect(*old(self), *self, job_id@, resp, path));
        }
        Some((resp, path))
    }

    /// Worker claim by identifier; `None` on an unknown job.
    pub fn claim_job(&mut self, job_id: &String, progress: u32, message: String, now_ms: u64) -> (r:
        Option<ClaimOutcome>)
        requires
            old(self).wf(),
            progress <= 100,
        ensures
            final(self).wf(),
            r is Some <==> old(self).spec_has_job(job_id@),
            r is None ==> *final(self) == *old(self),
            forall|i: int|
                0 <= i < old(self).jobs.len() && (#[trigger] old(self).jobs[i].job_id@)
                    == job_id@ && old(self).jobs[i].status == JobState::Queued && old(
                    self,
                ).jobs[i].request is Some && old(self).jobs[i].next_seq < u64::MAX ==> r == Some(
                    ClaimOutcome::Started(old(self).jobs[i].request.unwrap()),
                ),
            r is Some ==> exists|i: int|
                {
                    &&& 0 <= i < old(self).jobs.len()
                    &&& (#[trigger] old(self).jobs[i].job_id@) == job_id@
                    &&& final(self).jobs@ =~= old(self).jobs@.update(i, final(self).jobs[i])
                    &&& (r.unwrap() is Started ==> {
                        &&& final(self).jobs[i].status == JobState::Running
                        &&& final(self).jobs[i].request is None
                        &&& final(self).jobs[i].progress == progress
                        &&& final(self).jobs[i].current_stage == ExportStage::Transform
                        &&& final(self).jobs[i].error is None
                        &&& final(self).jobs[i].next_seq == old(self).jobs[i].next_seq + 1
                        &&& final(self).jobs[i].events.len() > 0
                        &&& final(self).jobs[i].events@.last().event_type
                            == ExportEventType::JobStarted
                        &&& final(self).jobs[i].events@.last().message == message
                    })
                    &&& !(r.unwrap() is Started) ==> final(self).jobs[i] == old(self).jobs[i]
                },
    {
        let i = match self.find_index(job_id) {
            Some(i) => i,
            None => { return None },
        };
        let ghost oldjobs = self.jobs@;
        let mut job = self.jobs.remove(i);
        let outcome = if job.next_seq < u64::MAX {
            job.claim(progress, message, now_ms)
        } else {
            ClaimOutcome::Skip
        };
        self.jobs.insert(i, job);
        proof {
            assert(self.jobs@ =~= oldjobs.update(i as int, self.jobs[i as int]));
            assert(forall|k: int|
                0 <= k < oldjobs.len() && (#[trigger] oldjobs[k].job_id@) == job_id@ ==> k
                    == i);
        }
        Some(outcome)
    }

    /// Appends a progress or heartbeat event to the identified job. The
    /// append happens exactly when the job exists, is not terminal and its
    /// sequence counter has room; otherwise nothing changes and `None`
    /// comes back.
    pub fn append_job_event(
        &mut self,
        job_id: &String,
        event_type: ExportEventType,
        stage: ExportStage,
        progress: u32,
        stage_progress: Option<u32>,
        message: String,
        meta_json: Option<String>,
        now_ms: u64,
    ) -> (r: Option<ExportLogEvent>)
        requires
            old(self).wf(),
        ensures
            final(self).wf(),
            !old(self).spec_has_job(job_id@) ==> r is None,
            r is None ==> final(self).jobs@ == old(self).jobs@,
            forall|i: int|
                0 <= i < old(self).jobs.len() && (#[trigger] old(self).jobs[i].job_id@)
                    == job_id@ && !spec_is_terminal(old(self).jobs[i].status) && old(
                    self,
                ).jobs[i].next_seq < u64::MAX ==> r is Some,
            r is Some ==> exists|i: int|
                {
                    &&& 0 <= i < old(self).jobs.len()
                    &&& (#[trigger] old(self).jobs[i].job_id@) == job_id@
                    &&& !spec_is_terminal(old(self).jobs[i].status)
                    &&& final(self).jobs@ =~= old(self).jobs@.update(i, final(self).jobs[i])
                    &&& r.unwrap().seq == old(self).jobs[i].next_seq
                    &&& r.unwrap().event_type == event_type
                    &&& r.unwrap().stage == stage
                    &&& r.unwrap().progress == spec_clamp100(progress as int)
                    &&& r.unwrap().ts_ms == spec_event_ts(old(self).jobs[i], now_ms)
                    &&& r.unwrap().message == message
                    &&& r.unwrap().meta_json == meta_json
                    &&& final(self).jobs[i].next_seq == old(self).jobs[i].next_seq + 1
                    &&& final(self).jobs[i].events@ == (if old(self).jobs[i].events.len()
                        < MAX_JOB_EVENTS {
                        old(self).jobs[i].events@.push(r.unwrap())
                    } else {
                        old(self).jobs[i].events@.drop_first().push(r.unwrap())
                    })
                    &&& final(self).jobs[i].events@.last() == r.unwrap()
                    &&& final(self).jobs[i].progress == spec_clamp100(progress as int)
                    &&& final(self).jobs[i].current_stage == stage
                    &&& final(self).jobs[i].message == Some(message)
                    &&& final(self).jobs[i].last_event_at_ms == spec_event_ts(
                        old(self).jobs[i],
                        now_ms,
                    )
                    &&& final(self).jobs[i].status == old(self).jobs[i].status
                    &&& final(self).jobs[i].request == old(self).jobs[i].request
                    &&& final(self).jobs[i].artifact == old(self).jobs[i].artifact
                    &&& final(self).jobs[i].artifact_path == old(self).jobs[i].artifact_path
                },
    {
        let i = match self.find_index(job_id) {
            Some(i) => i,
            None => { return None },
        };
        let ghost oldjobs = self.jobs@;
        let mut job = self.jobs.remove(i);
        let out = if job.next_seq < u64::MAX {
            job.append_event(
                event_type,
                stage,
                progress,
                stage_progress,
                message,
                meta_json,
                now_ms,
            )
        } else {
            None
        };
        self.jobs.insert(i, job);
        proof {
            assert(self.jobs@ =~= oldjobs.update(i as int, self.jobs[i as int]));
            assert(forall|k: int|
                0 <= k < oldjobs.len() && (#[trigger] oldjobs[k].job_id@) == job_id@ ==> k
                    == i);
            if out is None {
                assert(self.jobs[i as int] == oldjobs[i as int]);
                assert(self.jobs@ =~= oldjobs);
            }
        }
        out
    }

    /// Terminal completion of a running job: succeeds exactly when the job
    /// exists, is running and its sequence counter has room (a cancel that
    /// won the race stays in force); on failure the table is unchanged.
    pub fn complete_job(
        &mut self,
        job_id: &String,
        file_name: String,
        download_url: String,
        size_bytes: u64,
        expires_at_ms: u64,
        artifact_path: String,
        meta_json: Option<String>,
        now_ms: u64,
    ) -> (r: bool)
        requires
            old(self).wf(),
        ensures
            final(self).wf(),
            !old(self).spec_has_job(job_id@) ==> !r,
            !r ==> final(self).jobs@ == old(self).jobs@,
            forall|i: int|
                0 <= i < old(self).jobs.len() && (#[trigger] old(self).jobs[i].job_id@)
                    == job_id@ && old(self).jobs[i].status == JobState::Running && old(
                    self,
                ).jobs[i].next_seq < u64::MAX ==> r,
            r ==> spec_complete_effect(
                *old(self),
                *final(self),
                job_id@,
                file_name,
                download_url,
                size_bytes,
                expires_at_ms,
                artifact_path,
            ),
    {
        let i = match self.find_index(job_id) {
            Some(i) => i,
            None => { return false },
        };
        let ghost oldjobs = self.jobs@;
        let ghost g_file_name = file_name;
        let ghost g_download_url = download_url;
        let ghost g_artifact_path = artifact_path;
        let mut job = self.jobs.remove(i);
        let out = if job.next_seq < u64::MAX {
            job.complete(
                file_name,
                download_url,
                size_bytes,
                expires_at_ms,
                artifact_path,
                meta_json,
                now_ms,
            )
        } else {
            false
        };
        self.jobs.insert(i, job);
        proof {
            assert(self.jobs@ =~= oldjobs.update(i as int, self.jobs[i as int]));
            assert(old(self).jobs[i as int].job_id@ == job_id@);
            assert(forall|k: int|
                0 <= k < oldjobs.len() && (#[trigger] oldjobs[k].job_id@) == job_id@ ==> k
                    == i);
            if !out {
                assert(self.jobs[i as int] == oldjobs[i as int]);
                assert(self.jobs@ =~= oldjobs);
            } else {
                assert(spec_complete_effect(
                    *old(self),
                    *self,
                    job_id@,
                    g_file_name,
                    g_download_url,
                    size_bytes,
                    expires_at_ms,
                    g_artifact_path,
                ));
            }
        }
        out
    }

    /// Terminal failure of a live job: succeeds exactly when the job exists,
    /// is not yet terminal and its sequence counter has room; on failure
    /// the table is unchanged.
    pub fn fail_job(
        &mut self,
        job_id: &String,
        error_message: String,
        meta_json: Option<String>,
        now_ms: u64,
    ) -> (r: bool)
        requires
            old(self).wf(),
        ensures
            final(self).wf(),
            !old(self).spec_has_job(job_id@) ==> !r,
            !r ==> final(self).jobs@ == old(self).jobs@,
            forall|i: int|
                0 <= i < old(self).jobs.len() && (#[trigger] old(self).jobs[i].job_id@)
                    == job_id@ && !spec_is_terminal(old(self).jobs[i].status) && old(
                    self,
                ).jobs[i].next_seq < u64::MAX ==> r,
            r ==> spec_fail_effect(*old(self), *final(self), job_id@, error_message),
    {
        let i = match self.find_index(job_id) {
            Some(i) => i,
            None => { return false },
        };
        let ghost oldjobs = self.jobs@;
        let ghost g_error_message = error_message;
        let mut job = self.jobs.remove(i);
        let out = if job.next_seq < u64::MAX {
            job.fail(error_message, meta_json, now_ms)
        } else {
            false
        };
        self.jobs.insert(i, job);
        proof {
            assert(self.jobs@ =~= oldjobs.update(i as int, self.jobs[i as int]));
            assert(old(self).jobs[i as int].job_id@ == job_id@);
            assert(forall|k: int|
                0 <= k < oldjobs.len() && (#[trigger] oldjobs[k].job_id@) == job_id@ ==> k
                    == i);
            if !out {
                assert(self.jobs[i as int] == oldjobs[i as int]);
                assert(self.jobs@ =~= oldjobs);
            } else {
                assert(spec_fail_effect(*old(self), *self, job_id@, g_error_message));
            }
        }
        out
    }

    /// The page size a fetch actually serves: the asked-for limit clamped
    /// into `1 ..= EVENTS_MAX_LIMIT`.
    pub open spec fn spec_clamped_limit(limit: usize) -> int {
        if limit < 1 {
            1
        } else if limit > EVENTS_MAX_LIMIT {
            EVENTS_MAX_LIMIT as int
        } else {
            limit as int
        }
    }

    /// Historical events fetch: 404 on an unknown id, 410 once expired,
    /// otherwise exactly the stored events with `seq > since_seq`, oldest
    /// first, up to the clamped limit.
    pub fn events_response(
        &self,
        job_id: &String,
        since_seq: u64,
        limit: usize,
        now_ms: u64,
    ) -> (r: EventsOutcome)
        requires
            self.wf(),
        ensures
            r is NotFound <==> !self.spec_has_job(job_id@),
            match r {
                EventsOutcome::Events(resp) => exists|i: int|
                    {
                        &&& 0 <= i < self.jobs.len()
                        &&& (#[trigger] self.jobs[i].job_id@) == job_id@
                        &&& self.jobs[i].status != JobState::Expired
                        &&& resp.next_seq == self.jobs[i].next_seq
                        &&& resp.events.len() <= Self::spec_clamped_limit(limit)
                        &&& spec_replay_window(
                            self.jobs[i].events@,
                            since_seq,
                            Self::spec_clamped_limit(limit),
                            resp.events@,
                        )
                        &&& (forall|k: int|
                            0 <= k < resp.events.len() ==> (#[trigger] resp.events[k].seq)
                                > since_seq)
                        &&& (forall|k: int|
                            0 <= k < resp.events.len() ==> (#[trigger] resp.events[k].seq)
                                == resp.events[0].seq + k)
                    },
                EventsOutcome::Gone => exists|i: int|
                    0 <= i < self.jobs.len() && (#[trigger] self.jobs[i].job_id@) == job_id@
                        && self.jobs[i].status == JobState::Expired,
                EventsOutcome::NotFound => true,
            },
    {
        let i = match self.find_index(job_id) {
            Some(i) => i,
            None => { return EventsOutcome::NotFound },
        };
        let job = &self.jobs[i];
        if matches!(job.status, JobState::Expired) {
            return EventsOutcome::Gone;
        }
        let capped: usize = if limit < 1 {
            1
        } else if limit > EVENTS_MAX_LIMIT {
            EVENTS_MAX_LIMIT
        } else {
            limit
        };
        let events = job.events_after(since_seq, capped);
        proof {
            assert(spec_replay_window(
                self.jobs[i as int].events@,
                since_seq,
                Self::spec_clamped_limit(limit),
                events@,
            ));
        }
        EventsOutcome::Events(
            ExportEventsResponse {
                job_id: job.job_id.clone(),
                events,
                next_seq: job.next_seq,
                status_snapshot: job.to_response(now_ms),
            },
        )
    }

    /// Resolves an artifact download, an exact partition over the job's
    /// state: ready with path and file name if and only if the job is
    /// completed, gone if and only if it expired, a conflict otherwise.
    pub fn download(&self, job_id: &String) -> (r: DownloadOutcome)
        requires
            self.wf(),
        ensures
            r is NotFound <==> !self.spec_has_job(job_id@),
            match r {
                DownloadOutcome::Ready { path, file_name } => exists|i: int|
                    {
                        &&& 0 <= i < self.jobs.len()
                        &&& (#[trigger] self.jobs[i].job_id@) == job_id@
                        &&& self.jobs[i].status == JobState::Completed
                        &&& self.jobs[i].artifact_path == Some(path)
                        &&& self.jobs[i].artifact is Some
                        &&& file_name == self.jobs[i].artifact.unwrap().file_name
                    },
                DownloadOutcome::NotReady => exists|i: int|
                    0 <= i < self.jobs.len() && (#[trigger] self.jobs[i].job_id@) == job_id@
                        && self.jobs[i].status != JobState::Completed && self.jobs[i].status
                        != JobState::Expired,
                DownloadOutcome::Missing => exists|i: int|
                    0 <= i < self.jobs.len() && (#[trigger] self.jobs[i].job_id@) == job_id@
                        && self.jobs[i].status == JobState::Expired,
                DownloadOutcome::NotFound => true,
            },
            forall|i: int|
                0 <= i < self.jobs.len() && (#[trigger] self.jobs[i].job_id@) == job_id@
                    && self.jobs[i].status == JobState::Completed ==> r is Ready,
            forall|i: int|
                0 <= i < self.jobs.len() && (#[trigger] self.jobs[i].job_id@) == job_id@
                    && self.jobs[i].status == JobState::Expired ==> r is Missing,
    {
        let i = match self.find_index(job_id) {
            Some(i) => i,
            None => { return DownloadOutcome::NotFound },
        };
        proof {
            assert(forall|k: int|
                0 <= k < self.jobs.len() && (#[trigger] self.jobs[k].job_id@) == job_id@ ==> k
                    == i);
        }
        let job = &self.jobs[i];
        if matches!(job.status, JobState::Expired) {
            return DownloadOutcome::Missing;
        }
        if !matches!(job.status, JobState::Completed) {
            return DownloadOutcome::NotReady;
        }
        match (&job.artifact_path, &job.artifact) {
            (Some(path), Some(artifact)) => DownloadOutcome::Ready {
                path: path.clone(),
                file_name: artifact.file_name.clone(),
            },
            _ => {
                proof {
                    // a completed record always carries its artifact and path
                    assert(self.jobs[i as int].artifact is Some);
                    assert(self.jobs[i as int].artifact_path is Some);
                    assert(false);
                }
                DownloadOutcome::NotFound
            },
        }
    }

    /// Index of the most recently updated completed job, if any.
    pub fn latest_completed(&self) -> (r: Option<usize>)
        requires
            self.wf(),
        ensures
            match r {
                Some(i) => {
                    &&& i < self.jobs.len()
                    &&& self.jobs[i as int].status == JobState::Completed
                    &&& forall|k: int|
                        0 <= k < self.jobs.len() && (#[trigger] self.jobs[k].status)
                            == JobState::Completed ==> self.jobs[k].updated_at_ms <= self.jobs[i as int].updated_at_ms
                },
                None => forall|k: int|
                    0 <= k < self.jobs.len() ==> (#[trigger] self.jobs[k].status)
                        != JobState::Completed,
            },
    {
        let mut best: Option<usize> = None;
        let mut k: usize = 0;
        while k < self.jobs.len()
            invariant
                self.wf(),
                0 <= k <= self.jobs.len(),
                match best {
                    Some(b) => {
                        &&& b < k <= self.jobs.len()
                        &&& self.jobs[b as int].status == JobState::Completed
                        &&& forall|m: int|
                            0 <= m < k && (#[trigger] self.jobs[m].status) == JobState::Completed
                                ==> self.jobs[m].updated_at_ms <= self.jobs[b as int].updated_at_ms
                    },
                    None => forall|m: int|
                        0 <= m < k ==> (#[trigger] self.jobs[m].status) != JobState::Completed,
                },
            decreases self.jobs.len() - k,
        {
            if matches!(self.jobs[k].status, JobState::Completed) {
                best = match best {
                    Some(b) => if self.jobs[k].updated_at_ms >= self.jobs[b].updated_at_ms {
                        Some(k)
                    } else {
                        Some(b)
                    },
                    None => Some(k),
                };
            }
            k += 1;
        }
        best
    }

    /// Retention sweep: every completed job whose artifact expired by
    /// `now_ms` transitions to expired; the artifact locations to delete
    /// and the identifiers of the expired jobs come back.
    pub fn collect_expired(&mut self, now_ms: u64) -> (r: (Vec<String>, Vec<String>))
        requires
            old(self).wf(),
        ensures
            final(self).wf(),
            final(self).jobs.len() == old(self).jobs.len(),
            forall|i: int|
                0 <= i < old(self).jobs.len() ==> (#[trigger] final(self).jobs[i].job_id) == old(self).jobs[i].job_id,
            forall|i: int|
                0 <= i < old(self).jobs.len() ==> if spec_expiry_due(old(self).jobs[i], now_ms) {
                    (#[trigger] final(self).jobs[i]).status == JobState::Expired && final(self).jobs[i].artifact is None && final(self).jobs[i].artifact_path is None
                        && final(self).jobs[i].events.len() == 0 && final(self).jobs[i].next_seq
                        == 1
                } else {
                    final(self).jobs[i] == old(self).jobs[i]
                },
    {
        let mut paths: Vec<String> = Vec::new();
        let mut ids: Vec<String> = Vec::new();
        let mut k: usize = 0;
        while k < self.jobs.len()
            invariant
                self.wf(),
                0 <= k <= self.jobs.len(),
                self.jobs.len() == old(self).jobs.len(),
                forall|i: int|
                    0 <= i < old(self).jobs.len() ==> (#[trigger] self.jobs[i].job_id) == old(self).jobs[i].job_id,
                forall|i: int|
                    0 <= i < k ==> if spec_expiry_due(old(self).jobs[i], now_ms) {
                        (#[trigger] self.jobs[i]).status == JobState::Expired
                            && self.jobs[i].artifact is None && self.jobs[i].artifact_path is None
                            && self.jobs[i].events.len() == 0 && self.jobs[i].next_seq == 1
                    } else {
                        self.jobs[i] == old(self).jobs[i]
                    },
                forall|i: int|
                    k <= i < self.jobs.len() ==> (#[trigger] self.jobs[i]) == old(self).jobs[i],
            decreases self.jobs.len() - k,
        {
            let due = match (&self.jobs[k].status, &self.jobs[k].artifact) {
                (JobState::Completed, Some(artifact)) => artifact.expires_at_ms <= now_ms,
                _ => false,
            };
            if due {
                let ghost oldjobs = self.jobs@;
                let mut job = self.jobs.remove(k);
                let path = job.expire(now_ms);
                ids.push(job.job_id.clone());
                self.jobs.insert(k, job);
                proof {
                    assert(self.jobs@ =~= oldjobs.update(k as int, self.jobs[k as int]));
                }
                if let Some(p) = path {
                    paths.push(p);
                }
            }
            k += 1;
        }
        (paths, ids)
    }

    /// Value-copy status snapshot of a job.
    pub fn snapshot(&self, job_id: &String, now_ms: u64) -> (r: Option<ExportJobResponse>)
        requires
            self.wf(),
        ensures
            r is Some <==> self.spec_has_job(job_id@),
            match r {
                Some(resp) => exists|i: int|
                    0 <= i < self.jobs.len() && (#[trigger] self.jobs[i].job_id@) == job_id@
                        && resp.status == self.jobs[i].status && resp.progress
                        == self.jobs[i].progress && resp.last_event_seq == self.jobs[i].next_seq
                        - 1 && resp.artifact == self.jobs[i].artifact,
                None => true,
            },
    {
        match self.find_index(job_id) {
            Some(i) => Some(self.jobs[i].to_response(now_ms)),
            None => None,
        }
    }
}

} // verus!
