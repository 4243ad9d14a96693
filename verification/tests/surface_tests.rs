use memvid_export_api::artifact::{
    build_job_file_name, download_url_for, expires_at_ms, job_file_name_at, job_output_path,
};
use memvid_export_api::auth::{extract_bearer_token, verify_key};
use memvid_export_api::cli::{parse_args, resolve_file_ref_path, resolve_output_prefix};
use memvid_export_api::config::{
    backend_mode_of, embedding_mode_of, parse_bool_flag, ExportBackendMode,
};
use memvid_export_api::embedding::{
    default_model_for_provider, EmbeddingModeKind, EmbeddingProviderKind, EmbeddingRuntimeConfig,
};
use memvid_export_api::jobs::stage_emoji;
use memvid_export_api::models::{ExportEventType, ExportStage};
use memvid_export_api::pipeline::{
    classify_remote_status, lerp_stage_progress, remote_status_heartbeat, sidecar_checkpoint,
    write_heartbeat_progress, RemoteStatusClass,
};
use memvid_export_api::runpod::{resolve_runpod_artifact_path, RunpodClient};

#[test]
fn mcp_unauthorized_token_comparison() {
    // an authorization value without the bearer marker yields no token
    assert!(extract_bearer_token("Basic abc").is_none());
    let token = extract_bearer_token("Bearer wrong").expect("token");
    assert_eq!(token.as_str(), "wrong");
    assert!(!verify_key(token.as_str(), "right"));
    assert!(verify_key(" right ", "right"));
}

#[test]
fn artifact_names_and_paths() {
    assert_eq!(
        build_job_file_name("p", "1999-12-31").as_str(),
        "p-gitnexus-mem_capsule-1999-12-31.mv2"
    );
    assert_eq!(job_output_path("/data/exports", "j1", "a.mv2").as_str(), "/data/exports/j1/a.mv2");
    assert_eq!(download_url_for("j1").as_str(), "/v1/exports/j1/download");
    assert_eq!(expires_at_ms(1000, 2), 3000);
    assert_eq!(expires_at_ms(u64::MAX - 10, u64::MAX), u64::MAX);
}

#[test]
fn stage_windows_and_heartbeats() {
    assert_eq!(lerp_stage_progress(0, 60, 79), 60);
    assert_eq!(lerp_stage_progress(100, 60, 79), 79);
    assert_eq!(lerp_stage_progress(50, 60, 79), 69);
    assert_eq!(write_heartbeat_progress(0, 4), 0);
    assert_eq!(write_heartbeat_progress(2, 4), 50);
    assert_eq!(write_heartbeat_progress(4, 4), 99);
    let (sp, msg) = sidecar_checkpoint(0);
    assert_eq!(sp, 0);
    assert_eq!(msg.as_str(), "Parsing capsule metadata");
    let (sp2, msg2) = sidecar_checkpoint(10);
    assert_eq!(sp2, 31);
    assert_eq!(msg2.as_str(), "Deriving hotspot and process indexes");
    let (sp3, msg3) = sidecar_checkpoint(24);
    assert_eq!(sp3, 75);
    assert_eq!(msg3.as_str(), "Persisting sidecar index");
}

#[test]
fn remote_status_mapping() {
    assert!(matches!(classify_remote_status("IN_QUEUE"), RemoteStatusClass::InQueue));
    assert!(matches!(classify_remote_status("COMPLETED"), RemoteStatusClass::Completed));
    assert!(matches!(classify_remote_status("whatever"), RemoteStatusClass::Unknown));
    let (p, sp, msg) = remote_status_heartbeat(RemoteStatusClass::InProgress);
    assert_eq!((p, sp), (45, 55));
    assert_eq!(msg.as_str(), "Runpod worker processing export");
}

#[test]
fn config_option_parsing() {
    assert!(matches!(backend_mode_of(" RUNPOD_QUEUE "), ExportBackendMode::RunpodQueue));
    assert!(matches!(backend_mode_of("legacy_vps"), ExportBackendMode::LegacyVps));
    assert!(matches!(backend_mode_of("junk"), ExportBackendMode::LegacyVps));
    assert!(parse_bool_flag("  TRUE "));
    assert!(parse_bool_flag("1"));
    assert!(!parse_bool_flag("off"));
    assert!(matches!(
        embedding_mode_of("runpod_gpu"),
        memvid_export_api::config::EmbeddingMode::RunpodGpu
    ));
}

#[test]
fn embedding_parsing_and_validation() {
    assert!(matches!(EmbeddingModeKind::parse("External_API"), Ok(EmbeddingModeKind::ExternalApi)));
    assert!(EmbeddingModeKind::parse("other").is_err());
    assert!(matches!(
        EmbeddingProviderKind::parse("voyageai"),
        Ok(EmbeddingProviderKind::Voyage)
    ));
    assert!(matches!(EmbeddingProviderKind::parse("local"), Ok(EmbeddingProviderKind::Ollama)));
    assert_eq!(default_model_for_provider("nvidia").unwrap(), "nvidia/nv-embed-v1");
    assert_eq!(default_model_for_provider("voyage").unwrap(), "voyage-code-3");
    // an external-mode provider without its key is refused
    let missing_key = EmbeddingRuntimeConfig::new(
        "external_api",
        "nvidia",
        "m",
        None,
        None,
        None,
        None,
        "document".to_string(),
        None,
        "float".to_string(),
        true,
        30,
    );
    assert!(missing_key.is_err());
    let ok = EmbeddingRuntimeConfig::new(
        "external_api",
        "nvidia",
        "m",
        Some("key".to_string()),
        None,
        None,
        None,
        "document".to_string(),
        None,
        "float".to_string(),
        true,
        30,
    );
    assert!(ok.is_ok());
    // the GPU mode supports the local provider only
    let wrong_mode = EmbeddingRuntimeConfig::new(
        "runpod_gpu",
        "nvidia",
        "m",
        Some("key".to_string()),
        None,
        None,
        None,
        "document".to_string(),
        None,
        "float".to_string(),
        true,
        30,
    );
    assert!(wrong_mode.is_err());
    let bad_dim = EmbeddingRuntimeConfig::new(
        "external_api",
        "voyage",
        "voyage-code-3",
        None,
        None,
        Some("key".to_string()),
        None,
        "document".to_string(),
        Some(333),
        "float".to_string(),
        true,
        30,
    );
    assert!(bad_dim.is_err());
}

#[test]
fn runpod_urls_and_artifact_paths() {
    let client = RunpodClient::new(
        "https://api.runpod.ai/v2/".to_string(),
        "ep1".to_string(),
        "key".to_string(),
    );
    assert_eq!(client.run_url().as_str(), "https://api.runpod.ai/v2/ep1/run");
    assert_eq!(client.status_url("j9").as_str(), "https://api.runpod.ai/v2/ep1/status/j9");
    assert_eq!(client.cancel_url("j9").as_str(), "https://api.runpod.ai/v2/ep1/cancel/j9");
    assert_eq!(
        resolve_runpod_artifact_path(Some("file:///out/a.mv2".to_string())).unwrap().as_str(),
        "/out/a.mv2"
    );
    assert_eq!(
        resolve_runpod_artifact_path(Some("/out/a.mv2".to_string())).unwrap().as_str(),
        "/out/a.mv2"
    );
}

#[test]
fn runner_argument_parsing() {
    let args: Vec<String> = vec![
        "svc", "runpod-execute", "--job-id", "j1", "--payload-ref", "file:///p.json",
        "--output-prefix", "file:///out",
    ]
    .into_iter()
    .map(|s| s.to_string())
    .collect();
    let parsed = parse_args(&args).expect("args");
    assert_eq!(parsed.job_id.as_str(), "j1");
    assert_eq!(parsed.embedding_mode.as_str(), "external_api");
    assert_eq!(parsed.embedding_provider.as_str(), "nvidia");
    assert_eq!(parsed.embedding_model.as_str(), "nvidia/nv-embed-v1");
    let missing: Vec<String> = vec!["svc", "runpod-execute", "--job-id"]
        .into_iter()
        .map(|s| s.to_string())
        .collect();
    assert!(parse_args(&missing).is_err());
    assert_eq!(resolve_file_ref_path("file:///p.json").as_str(), "/p.json");
    assert_eq!(resolve_file_ref_path("/p.json").as_str(), "/p.json");
    assert!(resolve_output_prefix("https://host/x").is_err());
    assert!(resolve_output_prefix("file:///").is_err());
    assert_eq!(resolve_output_prefix("file:///out").unwrap().as_str(), "/out");
}

#[test]
fn stage_glyphs() {
    assert_eq!(stage_emoji(&ExportStage::DownloadReady, &ExportEventType::JobCompleted), "✅");
    assert_eq!(stage_emoji(&ExportStage::WriteCapsule, &ExportEventType::StageProgress), "💾");
    assert_eq!(stage_emoji(&ExportStage::Queued, &ExportEventType::StageHeartbeat), "⏳");
}

#[test]
fn job_file_names_carry_the_utc_date() {
    // the epoch instant
    assert_eq!(job_file_name_at("p", 0).as_str(), "p-gitnexus-mem_capsule-1970-01-01.mv2");
    // one full day later
    assert_eq!(
        job_file_name_at("p", 86_400_000).as_str(),
        "p-gitnexus-mem_capsule-1970-01-02.mv2"
    );
}
