//! Remote executor client data: the request and status shapes exchanged
//! with the queue endpoint, and the URL construction for its operations.
//! The HTTP transport is the runtime's part.
use vstd::prelude::*;
use vstd::string::*;

use crate::strutil::{spec_starts_with, str_starts_with, str_suffix};

verus! {

#[derive(Debug, Clone, Copy)]
pub struct RunpodPolicy {
    pub execution_timeout: u64,
    pub ttl: u64,
}

#[derive(Debug, Clone)]
pub struct RunpodJobInput {
    pub job_id: String,
    pub payload_ref: String,
    pub output_prefix: String,
    pub embedding_mode: String,
    pub embedding_provider: String,
    pub embedding_model: String,
    pub ollama_host: Option<String>,
}

#[derive(Debug, Clone)]
pub struct RunpodRunRequest {
    pub input: RunpodJobInput,
    pub policy: RunpodPolicy,
}

#[derive(Debug, Clone)]
pub struct RunpodRunResponse {
    pub id: String,
    pub status: String,
}

/// A status report with its interesting output fields already extracted
/// to plain values.
#[derive(Debug, Clone)]
pub struct RunpodStatusResponse {
    pub id: String,
    pub status: String,
    pub output_artifact_path: Option<String>,
    pub output_file_name: Option<String>,
    pub output_artifact_ref: Option<String>,
    pub error_text: Option<String>,
}

#[derive(Debug, Clone)]
pub struct RunpodClient {
    pub base_url: String,
    pub endpoint_id: String,
    pub api_key: String,
}

impl RunpodClient {
    /// A client for one endpoint; a single trailing slash of the base URL
    /// is dropped.
    pub fn new(base_url: String, endpoint_id: String, api_key: String) -> (r: RunpodClient)
        ensures
            r.endpoint_id == endpoint_id,
            r.api_key == api_key,
    {
        let n = base_url.as_str().unicode_len();
        let trimmed: String = if n > 0 && base_url.as_str().get_char(n - 1) == '/' {
            String::from_str(base_url.as_str().substring_char(0, n - 1))
        } else {
            base_url
        };
        RunpodClient { base_url: trimmed, endpoint_id, api_key }
    }

    /// URL of the submit operation.
    pub fn run_url(&self) -> (r: String)
        ensures
            r@ == self.base_url@ + "/"@ + self.endpoint_id@ + "/run"@,
    {
        let mut s = String::from_str(self.base_url.as_str());
        s.append("/");
        s.append(self.endpoint_id.as_str());
        s.append("/run");
        proof {
            assert(s@ =~= self.base_url@ + "/"@ + self.endpoint_id@ + "/run"@);
        }
        s
    }

    /// URL of the status operation for one remote job.
    pub fn status_url(&self, remote_job_id: &str) -> (r: String)
        ensures
            r@ == self.base_url@ + "/"@ + self.endpoint_id@ + "/status/"@ + remote_job_id@,
    {
        let mut s = String::from_str(self.base_url.as_str());
        s.append("/");
        s.append(self.endpoint_id.as_str());
        s.append("/status/");
        s.append(remote_job_id);
        proof {
            assert(s@ =~= self.base_url@ + "/"@ + self.endpoint_id@ + "/status/"@
                + remote_job_id@);
        }
        s
    }

    /// URL of the cancel operation for one remote job.
    pub fn cancel_url(&self, remote_job_id: &str) -> (r: String)
        ensures
            r@ == self.base_url@ + "/"@ + self.endpoint_id@ + "/cancel/"@ + remote_job_id@,
    {
        let mut s = String::from_str(self.base_url.as_str());
        s.append("/");
        s.append(self.endpoint_id.as_str());
        s.append("/cancel/");
        s.append(remote_job_id);
        proof {
            assert(s@ =~= self.base_url@ + "/"@ + self.endpoint_id@ + "/cancel/"@
                + remote_job_id@);
        }
        s
    }
}

/// The on-disk artifact location a remote output names: the value with a
/// `file://` marker stripped, or as given.
pub fn resolve_runpod_artifact_path(value: Option<String>) -> (r: Option<String>)
    ensures
        match value {
            Some(v) => r is Some && (if spec_starts_with(v@, "file://"@) {
                r.unwrap()@ == v@.skip("file://"@.len() as int)
            } else {
                r.unwrap()@ == v@
            }),
            None => r is None,
        },
{
    proof {
        reveal_strlit("file://");
    }
    match value {
        Some(v) => {
            if str_starts_with(v.as_str(), "file://") {
                proof {
                    assert("file://"@.len() == 7);
                }
                Some(str_suffix(v.as_str(), 7))
            } else {
                Some(v)
            }
        },
        None => None,
    }
}

} // verus!
