use memvid_export_api::models::{
    ExportOptions, ExportRequest, ExportSourceDescriptor, ExportStage, GraphNode,
    GraphRelationship, JobState, NodeProperties,
};
use memvid_export_api::pipeline::validate_export_request;
use memvid_export_api::registry::{DownloadOutcome, EventsOutcome, JobTable};

fn node(id: &str, name: &str, file: &str) -> GraphNode {
    GraphNode {
        id: id.to_string(),
        label: "Function".to_string(),
        properties: NodeProperties {
            name: name.to_string(),
            file_path: file.to_string(),
            start_line: Some(1),
            end_line: Some(2),
            language: Some("rust".to_string()),
            is_exported: None,
            heuristic_label: None,
            cohesion_milli: None,
            symbol_count: None,
            keywords: None,
            description: None,
            enriched_by: None,
            process_type: None,
            step_count: None,
            communities: None,
            entry_point_id: None,
            terminal_id: None,
            entry_point_score_milli: None,
            entry_point_reason: None,
        },
    }
}

fn relationship(id: &str, source: &str, target: &str, kind: &str) -> GraphRelationship {
    GraphRelationship {
        id: id.to_string(),
        source_id: source.to_string(),
        target_id: target.to_string(),
        relation_type: kind.to_string(),
        confidence_milli: 900,
        reason: "self".to_string(),
        step: None,
    }
}

fn request() -> ExportRequest {
    ExportRequest {
        session_id: "s".to_string(),
        project_name: "p".to_string(),
        source: ExportSourceDescriptor {
            source_type: "local".to_string(),
            base_name: "p".to_string(),
            display_name: "p".to_string(),
            url: None,
            branch: None,
            original_file_name: None,
            folder_name: None,
        },
        nodes: vec![node("n1", "foo", "a.rs")],
        relationships: vec![relationship("r1", "n1", "n1", "CALLS")],
        file_contents: Vec::new(),
        options: ExportOptions {
            semantic_enabled: false,
            max_snippet_chars: 400,
            max_node_frames: 100,
            max_relation_frames: 100,
        },
    }
}

#[test]
fn submit_then_observe_completion() {
    let mut table = JobTable::new_table();
    let job_id = table.create_job(request(), "legacy_vps".to_string(), 1000).expect("job id");
    match table.claim_job(&job_id, 5, "Transforming graph data".to_string(), 2000) {
        Some(memvid_export_api::jobs::ClaimOutcome::Started(req)) => {
            assert_eq!(req.nodes.len(), 1);
        }
        other => panic!("unexpected claim outcome: {:?}", matches!(other, None)),
    }
    assert!(table.complete_job(
        &job_id,
        "p-gitnexus-mem_capsule-1970-01-01.mv2".to_string(),
        format!("/v1/exports/{job_id}/download"),
        42,
        90_000,
        "/tmp/out.mv2".to_string(),
        None,
        3000,
    ));
    let snap = table.snapshot(&job_id, 4000).expect("snapshot");
    assert!(matches!(snap.status, JobState::Completed));
    assert_eq!(snap.progress, 100);
    let artifact = snap.artifact.expect("artifact");
    assert!(artifact.file_name.ends_with(".mv2"));
}

#[test]
fn empty_input_rejection() {
    let mut req = request();
    req.nodes = Vec::new();
    assert!(!validate_export_request(&req));
    let mut req2 = request();
    req2.relationships = Vec::new();
    assert!(!validate_export_request(&req2));
    assert!(validate_export_request(&request()));
}

#[test]
fn cancel_mid_flight_is_single_transition_and_idempotent() {
    let mut table = JobTable::new_table();
    let job_id = table.create_job(request(), "legacy_vps".to_string(), 1000).expect("job id");
    let (snap, path) = table.cancel_job(&job_id, 1500).expect("known job");
    assert!(matches!(snap.status, JobState::Canceled));
    assert_eq!(snap.progress, 100);
    assert!(matches!(snap.current_stage, ExportStage::Canceled));
    assert!(path.is_none());
    // idempotent: the second cancel returns the unchanged snapshot
    let (snap2, path2) = table.cancel_job(&job_id, 1600).expect("known job");
    assert!(matches!(snap2.status, JobState::Canceled));
    assert!(path2.is_none());
    // a completion attempt after the cancel changes nothing
    assert!(!table.complete_job(
        &job_id,
        "x.mv2".to_string(),
        "/v1/exports/x/download".to_string(),
        1,
        10_000,
        "/tmp/x.mv2".to_string(),
        None,
        1700,
    ));
}

#[test]
fn event_resume_is_contiguous() {
    let mut table = JobTable::new_table();
    let job_id = table.create_job(request(), "legacy_vps".to_string(), 1000).expect("job id");
    table.claim_job(&job_id, 5, "start".to_string(), 1100);
    table.append_job_event(
        &job_id,
        memvid_export_api::models::ExportEventType::StageProgress,
        ExportStage::FramePrep,
        20,
        Some(0),
        "frames".to_string(),
        None,
        1200,
    );
    table.complete_job(
        &job_id,
        "p.mv2".to_string(),
        "/v1/exports/j/download".to_string(),
        1,
        90_000,
        "/tmp/p.mv2".to_string(),
        None,
        1300,
    );
    match table.events_response(&job_id, 0, 200, 1400) {
        EventsOutcome::Events(resp) => {
            let n = resp.events.len() as u64;
            assert!(n >= 3);
            for (i, ev) in resp.events.iter().enumerate() {
                assert_eq!(ev.seq, 1 + i as u64);
            }
            assert_eq!(resp.next_seq, n + 1);
            // timestamps never decrease along the log
            for w in resp.events.windows(2) {
                assert!(w[0].ts_ms <= w[1].ts_ms);
            }
            // resuming past the end returns an empty slice
            match table.events_response(&job_id, n, 200, 1500) {
                EventsOutcome::Events(tail) => {
                    assert!(tail.events.is_empty());
                    assert_eq!(tail.next_seq, n + 1);
                }
                _ => panic!("expected events"),
            }
        }
        _ => panic!("expected events"),
    }
}

#[test]
fn retention_expires_completed_jobs() {
    let mut table = JobTable::new_table();
    let job_id = table.create_job(request(), "legacy_vps".to_string(), 1000).expect("job id");
    table.claim_job(&job_id, 5, "start".to_string(), 1100);
    // retention zero: the artifact expires at completion time
    table.complete_job(
        &job_id,
        "p.mv2".to_string(),
        "/v1/exports/j/download".to_string(),
        1,
        1300,
        "/tmp/p.mv2".to_string(),
        None,
        1300,
    );
    let (paths, ids) = table.collect_expired(2000);
    assert_eq!(paths, vec!["/tmp/p.mv2".to_string()]);
    assert_eq!(ids, vec![job_id.clone()]);
    let snap = table.snapshot(&job_id, 2100).expect("snapshot");
    assert!(matches!(snap.status, JobState::Expired));
    assert!(snap.artifact.is_none());
    assert_eq!(snap.last_event_seq, 0);
    match table.download(&job_id) {
        DownloadOutcome::Missing => {}
        other => panic!("expected a missing artifact, got {:?}", matches!(other, DownloadOutcome::NotFound)),
    }
    match table.events_response(&job_id, 0, 200, 2200) {
        EventsOutcome::Gone => {}
        _ => panic!("expected the expired-log outcome"),
    }
}

#[test]
fn download_decisions() {
    let mut table = JobTable::new_table();
    let job_id = table.create_job(request(), "legacy_vps".to_string(), 1000).expect("job id");
    match table.download(&job_id) {
        DownloadOutcome::NotReady => {}
        _ => panic!("expected not-ready before completion"),
    }
    let missing = "nope".to_string();
    match table.download(&missing) {
        DownloadOutcome::NotFound => {}
        _ => panic!("expected not-found for an unknown id"),
    }
    table.claim_job(&job_id, 5, "start".to_string(), 1100);
    table.complete_job(
        &job_id,
        "p.mv2".to_string(),
        "/v1/exports/j/download".to_string(),
        7,
        90_000,
        "/tmp/p.mv2".to_string(),
        None,
        1200,
    );
    match table.download(&job_id) {
        DownloadOutcome::Ready { path, file_name } => {
            assert_eq!(path.as_str(), "/tmp/p.mv2");
            assert_eq!(file_name.as_str(), "p.mv2");
        }
        _ => panic!("expected a ready artifact"),
    }
}

#[test]
fn failure_installs_error_descriptor() {
    let mut table = JobTable::new_table();
    let job_id = table.create_job(request(), "legacy_vps".to_string(), 1000).expect("job id");
    table.claim_job(&job_id, 5, "start".to_string(), 1100);
    assert!(table.fail_job(&job_id, "boom".to_string(), None, 1200));
    let snap = table.snapshot(&job_id, 1300).expect("snapshot");
    assert!(matches!(snap.status, JobState::Failed));
    let err = snap.error.expect("error descriptor");
    assert_eq!(err.code.as_str(), "EXPORT_FAILED");
    assert_eq!(err.message.as_str(), "boom");
    assert_eq!(snap.progress, 100);
    // terminal states absorb: a second failure changes nothing
    assert!(!table.fail_job(&job_id, "again".to_string(), None, 1400));
}

#[test]
fn late_events_after_terminal_are_dropped() {
    let mut table = JobTable::new_table();
    let job_id = table.create_job(request(), "legacy_vps".to_string(), 1000).expect("job id");
    table.cancel_job(&job_id, 1100);
    let dropped = table.append_job_event(
        &job_id,
        memvid_export_api::models::ExportEventType::StageProgress,
        ExportStage::WriteCapsule,
        50,
        Some(10),
        "late".to_string(),
        None,
        1200,
    );
    assert!(dropped.is_none());
    let snap = table.snapshot(&job_id, 1300).expect("snapshot");
    assert_eq!(snap.progress, 100);
    assert!(matches!(snap.status, JobState::Canceled));
}

#[test]
fn event_ring_drops_oldest_entries() {
    let mut table = JobTable::new_table();
    let job_id = table.create_job(request(), "legacy_vps".to_string(), 1000).expect("job id");
    table.claim_job(&job_id, 5, "start".to_string(), 1100);
    // push well past the ring bound
    for i in 0..5100u64 {
        table.append_job_event(
            &job_id,
            memvid_export_api::models::ExportEventType::StageHeartbeat,
            ExportStage::WriteCapsule,
            60,
            Some(1),
            "beat".to_string(),
            None,
            1200 + i,
        );
    }
    match table.events_response(&job_id, 0, 2000, 9000) {
        EventsOutcome::Events(resp) => {
            // the claim event plus the heartbeats exceed the bound; the ring
            // keeps the most recent ones with contiguous sequence numbers
            let first = resp.events.first().expect("events").seq;
            assert!(first > 1);
            assert_eq!(resp.next_seq, 5102);
            for (i, ev) in resp.events.iter().enumerate() {
                assert_eq!(ev.seq, first + i as u64);
            }
        }
        _ => panic!("expected events"),
    }
}
