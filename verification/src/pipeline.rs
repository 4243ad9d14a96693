//! Export pipeline decisions: stage progress windows, heartbeat mapping,
//! submission validation and the remote-backend status mapping. The
//! surrounding loop performs the outside work and feeds results back.
use vstd::prelude::*;
use vstd::string::*;

use crate::models::ExportRequest;

verus! {

/// Global progress where the capsule-write stage begins.
pub const WRITE_STAGE_START: u32 = 60;

/// Global progress where the capsule-write stage ends.
pub const WRITE_STAGE_END: u32 = 79;

/// Global progress where the sidecar-build stage begins.
pub const SIDECAR_STAGE_START: u32 = 79;

/// Global progress where the sidecar-build stage ends.
pub const SIDECAR_STAGE_END: u32 = 90;

/// Maps a stage-local progress (percent) into a global progress window.
pub fn lerp_stage_progress(stage_progress: u32, start: u32, end: u32) -> (r: u32)
    requires
        start <= end,
        end <= 100,
    ensures
        r == start + (end - start) * (if stage_progress > 100 {
            100int
        } else {
            stage_progress as int
        }) / 100,
        start <= r <= end,
{
    let sp: u32 = if stage_progress > 100 {
        100
    } else {
        stage_progress
    };
    let span = end - start;
    proof {
        assert(span * sp <= 10000) by (nonlinear_arith)
            requires
                0 <= sp <= 100,
                0 <= span <= 100,
        ;
    }
    let scaled = span * sp / 100;
    proof {
        assert(span * sp / 100 <= span) by (nonlinear_arith)
            requires
                0 <= sp <= 100,
                0 <= span <= 100,
        ;
    }
    start + scaled
}

/// Stage progress of the capsule write heartbeat: the written share in
/// percent, capped just under completion.
pub fn write_heartbeat_progress(written: usize, total: usize) -> (r: u32)
    requires
        total >= 1,
    ensures
        r == (if (written as int) * 100 / (total as int) > 99 {
            99int
        } else {
            (written as int) * 100 / (total as int)
        }),
        r <= 99,
{
    proof {
        assert((written as u128) * 100 <= (u64::MAX as u128) * 100) by (nonlinear_arith)
            requires
                0 <= written,
                written as int <= u64::MAX,
        ;
    }
    let pct128: u128 = (written as u128) * 100 / (total as u128);
    let pct: u32 = if pct128 > 99 {
        99
    } else {
        pct128 as u32
    };
    pct
}

/// Checkpoint of the sidecar-build heartbeat by elapsed seconds: the
/// stage progress ramps to 75 over 24 seconds; the message names the
/// phase the build has reached.
pub fn sidecar_checkpoint(elapsed_secs: u64) -> (r: (u32, String))
    ensures
        r.0 == (if elapsed_secs as int * 75 / 24 > 75 {
            75int
        } else {
            elapsed_secs as int * 75 / 24
        }),
        r.0 >= 50 ==> r.1@ == "Persisting sidecar index"@,
        25 <= r.0 < 50 ==> r.1@ == "Deriving hotspot and process indexes"@,
        r.0 < 25 ==> r.1@ == "Parsing capsule metadata"@,
{
    proof {
        assert((elapsed_secs as u128) * 75 <= (u64::MAX as u128) * 75) by (nonlinear_arith)
            requires
                0 <= elapsed_secs,
                elapsed_secs as int <= u64::MAX,
        ;
    }
    let ramp128: u128 = (elapsed_secs as u128) * 75 / 24;
    let sp: u32 = if ramp128 > 75 {
        75
    } else {
        ramp128 as u32
    };
    let message = if sp >= 50 {
        String::from_str("Persisting sidecar index")
    } else if sp >= 25 {
        String::from_str("Deriving hotspot and process indexes")
    } else {
        String::from_str("Parsing capsule metadata")
    };
    (sp, message)
}

/// Submission validation: a request must bring at least one node and one
/// relationship.
pub fn validate_export_request(req: &ExportRequest) -> (r: bool)
    ensures
        r == (req.nodes.len() > 0 && req.relationships.len() > 0),
{
    req.nodes.len() > 0 && req.relationships.len() > 0
}

/// Classification of a remote executor status report.
#[derive(Debug, Clone, Copy, PartialEq, Eq, Structural)]
pub enum RemoteStatusClass {
    InQueue,
    InProgress,
    Completed,
    Cancelled,
    Failed,
    TimedOut,
    Unknown,
}

pub open spec fn spec_remote_status_class(s: Seq<char>) -> RemoteStatusClass {
    if s == "IN_QUEUE"@ {
        RemoteStatusClass::InQueue
    } else if s == "IN_PROGRESS"@ {
        RemoteStatusClass::InProgress
    } else if s == "COMPLETED"@ {
        RemoteStatusClass::Completed
    } else if s == "CANCELLED"@ {
        RemoteStatusClass::Cancelled
    } else if s == "FAILED"@ {
        RemoteStatusClass::Failed
    } else if s == "TIMED_OUT"@ {
        RemoteStatusClass::TimedOut
    } else {
        RemoteStatusClass::Unknown
    }
}

pub fn classify_remote_status(status: &str) -> (r: RemoteStatusClass)
    ensures
        r == spec_remote_status_class(status@),
{
    if crate::strutil::str_eq_str(status, "IN_QUEUE") {
        RemoteStatusClass::InQueue
    } else if crate::strutil::str_eq_str(status, "IN_PROGRESS") {
        RemoteStatusClass::InProgress
    } else if crate::strutil::str_eq_str(status, "COMPLETED") {
        RemoteStatusClass::Completed
    } else if crate::strutil::str_eq_str(status, "CANCELLED") {
        RemoteStatusClass::Cancelled
    } else if crate::strutil::str_eq_str(status, "FAILED") {
        RemoteStatusClass::Failed
    } else if crate::strutil::str_eq_str(status, "TIMED_OUT") {
        RemoteStatusClass::TimedOut
    } else {
        RemoteStatusClass::Unknown
    }
}

/// The heartbeat shown for each remote status transition: global
/// progress, stage progress, and a human-readable message.
pub fn remote_status_heartbeat(class: RemoteStatusClass) -> (r: (u32, u32, String))
    ensures
        class == RemoteStatusClass::InQueue ==> r.0 == 15 && r.1 == 10 && r.2@
            == "Runpod job in queue"@,
        class == RemoteStatusClass::InProgress ==> r.0 == 45 && r.1 == 55 && r.2@
            == "Runpod worker processing export"@,
        class == RemoteStatusClass::Completed ==> r.0 == 95 && r.1 == 100 && r.2@
            == "Runpod worker completed export"@,
        class == RemoteStatusClass::Cancelled ==> r.0 == 100 && r.1 == 100 && r.2@
            == "Runpod worker canceled export"@,
        class == RemoteStatusClass::Failed ==> r.0 == 100 && r.1 == 100 && r.2@
            == "Runpod worker failed export"@,
        class == RemoteStatusClass::TimedOut ==> r.0 == 100 && r.1 == 100 && r.2@
            == "Runpod worker timed out"@,
        class == RemoteStatusClass::Unknown ==> r.0 == 40 && r.1 == 40 && r.2@
            == "Runpod status update"@,
{
    match class {
        RemoteStatusClass::InQueue => (15, 10, String::from_str("Runpod job in queue")),
        RemoteStatusClass::InProgress => (
            45,
            55,
            String::from_str("Runpod worker processing export"),
        ),
        RemoteStatusClass::Completed => (
            95,
            100,
            String::from_str("Runpod worker completed export"),
        ),
        RemoteStatusClass::Cancelled => (
            100,
            100,
            String::from_str("Runpod worker canceled export"),
        ),
        RemoteStatusClass::Failed => (100, 100, String::from_str("Runpod worker failed export")),
        RemoteStatusClass::TimedOut => (100, 100, String::from_str("Runpod worker timed out")),
        RemoteStatusClass::Unknown => (40, 40, String::from_str("Runpod status update")),
    }
}

} // verus!
