//! Runtime configuration: the immutable record the service starts with,
//! and the parsing of its enumerated and boolean options. Reading the
//! sources of these values is the runtime's part; the interpretation of
//! what was read is decided here.
use vstd::prelude::*;
use vstd::string::*;

use crate::strutil::{ascii_lower, spec_ascii_lower, spec_trimmed, str_eq_str, trim_blanks};

verus! {

#[derive(Debug, Clone, Copy, PartialEq, Eq, Structural)]
pub enum ExportBackendMode {
    LegacyVps,
    RunpodQueue,
}

impl ExportBackendMode {
    pub fn as_str(&self) -> (r: &'static str)
        ensures
            *self == ExportBackendMode::LegacyVps ==> r@ == "legacy_vps"@,
            *self == ExportBackendMode::RunpodQueue ==> r@ == "runpod_queue"@,
    {
        match self {
            Self::LegacyVps => "legacy_vps",
            Self::RunpodQueue => "runpod_queue",
        }
    }
}

#[derive(Debug, Clone, Copy, PartialEq, Eq, Structural)]
pub enum EmbeddingMode {
    ExternalApi,
    RunpodGpu,
}

impl EmbeddingMode {
    pub fn as_str(&self) -> (r: &'static str)
        ensures
            *self == EmbeddingMode::ExternalApi ==> r@ == "external_api"@,
            *self == EmbeddingMode::RunpodGpu ==> r@ == "runpod_gpu"@,
    {
        match self {
            Self::ExternalApi => "external_api",
            Self::RunpodGpu => "runpod_gpu",
        }
    }
}

/// The backend mode named by a configuration value: `runpod_queue`
/// (blank-trimmed, case-insensitive) selects the remote queue; everything
/// else falls back to the local backend.
pub fn backend_mode_of(value: &str) -> (r: ExportBackendMode)
    ensures
        r == (if spec_ascii_lower(spec_trimmed(value@)) == "runpod_queue"@ {
            ExportBackendMode::RunpodQueue
        } else {
            ExportBackendMode::LegacyVps
        }),
{
    let t = trim_blanks(value);
    let l = ascii_lower(t.as_str());
    if str_eq_str(l.as_str(), "runpod_queue") {
        ExportBackendMode::RunpodQueue
    } else {
        ExportBackendMode::LegacyVps
    }
}

/// The embedding mode named by a configuration value; everything but
/// `runpod_gpu` falls back to the external-API mode.
pub fn embedding_mode_of(value: &str) -> (r: EmbeddingMode)
    ensures
        r == (if spec_ascii_lower(spec_trimmed(value@)) == "runpod_gpu"@ {
            EmbeddingMode::RunpodGpu
        } else {
            EmbeddingMode::ExternalApi
        }),
{
    let t = trim_blanks(value);
    let l = ascii_lower(t.as_str());
    if str_eq_str(l.as_str(), "runpod_gpu") {
        EmbeddingMode::RunpodGpu
    } else {
        EmbeddingMode::ExternalApi
    }
}

/// Whether a configuration value switches a flag on: one of `1`, `true`,
/// `yes`, `on`, blank-trimmed and case-insensitive.
pub fn parse_bool_flag(value: &str) -> (r: bool)
    ensures
        r == {
            let l = spec_ascii_lower(spec_trimmed(value@));
            l == "1"@ || l == "true"@ || l == "yes"@ || l == "on"@
        },
{
    let t = trim_blanks(value);
    let l = ascii_lower(t.as_str());
    str_eq_str(l.as_str(), "1") || str_eq_str(l.as_str(), "true") || str_eq_str(
        l.as_str(),
        "yes",
    ) || str_eq_str(l.as_str(), "on")
}

/// The immutable runtime configuration record.
#[derive(Debug, Clone)]
pub struct Config {
    pub bind_addr: String,
    pub api_key: String,
    pub api_key_is_fallback: bool,
    pub export_root: String,
    pub retention_seconds: u64,
    pub queue_capacity: usize,
    pub mcp_response_budget_bytes: usize,
    pub mcp_rate_limit_per_minute: u32,
    pub mcp_rate_limit_burst: u32,
    pub mcp_dev_log_payloads: bool,
    pub mcp_allow_external_capsules: bool,
    pub mcp_cache_capacity: usize,
    pub backend_mode: ExportBackendMode,
    pub runpod_api_base: String,
    pub runpod_endpoint_id: Option<String>,
    pub runpod_api_key: Option<String>,
    pub runpod_region_scope: String,
    pub runpod_poll_interval_seconds: u64,
    pub runpod_execution_timeout_ms: u64,
    pub runpod_ttl_ms: u64,
    pub staging_root: String,
    pub embedding_mode: EmbeddingMode,
    pub embedding_provider: String,
    pub nvidia_api_key: Option<String>,
    pub ollama_host: Option<String>,
}

impl Config {
    /// The remote backend is usable only when selected and both its
    /// endpoint and key are configured.
    pub fn runpod_enabled(&self) -> (r: bool)
        ensures
            r == (self.backend_mode == ExportBackendMode::RunpodQueue
                && self.runpod_endpoint_id is Some && self.runpod_api_key is Some),
    {
        match self.backend_mode {
            ExportBackendMode::RunpodQueue => self.runpod_endpoint_id.is_some()
                && self.runpod_api_key.is_some(),
            ExportBackendMode::LegacyVps => false,
        }
    }
}

} // verus!
