//! Embedding runtime configuration: modes, providers and the validation
//! of what each combination requires. The provider calls themselves are
//! the runtime's part.
use vstd::prelude::*;
use vstd::string::*;

use crate::strutil::{ascii_lower, spec_ascii_lower, spec_trimmed, str_eq_str, trim_blanks};

verus! {

#[derive(Debug, Clone, Copy, PartialEq, Eq, Structural)]
pub enum EmbeddingModeKind {
    ExternalApi,
    RunpodGpu,
}

impl EmbeddingModeKind {
    /// Parses a mode name (blank-trimmed, case-insensitive); anything but
    /// the two supported names is rejected.
    pub fn parse(value: &str) -> (r: Result<EmbeddingModeKind, String>)
        ensures
            ({
                let l = spec_ascii_lower(spec_trimmed(value@));
                match r {
                    Ok(m) => (l == "external_api"@ && m == EmbeddingModeKind::ExternalApi) || (l
                        == "runpod_gpu"@ && m == EmbeddingModeKind::RunpodGpu),
                    Err(_) => l != "external_api"@ && l != "runpod_gpu"@,
                }
            }),
    {
        let t = trim_blanks(value);
        let l = ascii_lower(t.as_str());
        if str_eq_str(l.as_str(), "external_api") {
            Ok(EmbeddingModeKind::ExternalApi)
        } else if str_eq_str(l.as_str(), "runpod_gpu") {
            Ok(EmbeddingModeKind::RunpodGpu)
        } else {
            Err(String::from_str("Unsupported embedding mode"))
        }
    }

    pub fn as_str(&self) -> (r: &'static str)
        ensures
            *self == EmbeddingModeKind::ExternalApi ==> r@ == "external_api"@,
            *self == EmbeddingModeKind::RunpodGpu ==> r@ == "runpod_gpu"@,
    {
        match self {
            Self::ExternalApi => "external_api",
            Self::RunpodGpu => "runpod_gpu",
        }
    }
}

#[derive(Debug, Clone, Copy, PartialEq, Eq, Structural)]
pub enum EmbeddingProviderKind {
    Nvidia,
    Openai,
    Voyage,
    Ollama,
}

impl EmbeddingProviderKind {
    /// Parses a provider name (blank-trimmed, case-insensitive), with the
    /// aliases the service accepts.
    pub fn parse(value: &str) -> (r: Result<EmbeddingProviderKind, String>)
        ensures
            ({
                let l = spec_ascii_lower(spec_trimmed(value@));
                match r {
                    Ok(p) => (l == "nvidia"@ && p == EmbeddingProviderKind::Nvidia) || (l
                        == "openai"@ && p == EmbeddingProviderKind::Openai) || ((l == "voyage"@
                        || l == "voyageai"@) && p == EmbeddingProviderKind::Voyage) || ((l
                        == "ollama"@ || l == "local"@) && p == EmbeddingProviderKind::Ollama),
                    Err(_) => l != "nvidia"@ && l != "openai"@ && l != "voyage"@ && l
                        != "voyageai"@ && l != "ollama"@ && l != "local"@,
                }
            }),
    {
        let t = trim_blanks(value);
        let l = ascii_lower(t.as_str());
        if str_eq_str(l.as_str(), "nvidia") {
            Ok(EmbeddingProviderKind::Nvidia)
        } else if str_eq_str(l.as_str(), "openai") {
            Ok(EmbeddingProviderKind::Openai)
        } else if str_eq_str(l.as_str(), "voyage") || str_eq_str(l.as_str(), "voyageai") {
            Ok(EmbeddingProviderKind::Voyage)
        } else if str_eq_str(l.as_str(), "ollama") || str_eq_str(l.as_str(), "local") {
            Ok(EmbeddingProviderKind::Ollama)
        } else {
            Err(String::from_str("Unsupported embedding provider"))
        }
    }

    pub fn as_str(&self) -> (r: &'static str)
        ensures
            *self == EmbeddingProviderKind::Nvidia ==> r@ == "nvidia"@,
            *self == EmbeddingProviderKind::Openai ==> r@ == "openai"@,
            *self == EmbeddingProviderKind::Voyage ==> r@ == "voyage"@,
            *self == EmbeddingProviderKind::Ollama ==> r@ == "ollama"@,
    {
        match self {
            Self::Nvidia => "nvidia",
            Self::Openai => "openai",
            Self::Voyage => "voyage",
            Self::Ollama => "ollama",
        }
    }
}

/// The model used when a provider names none: defined exactly for the
/// supported provider names.
pub fn default_model_for_provider(provider: &str) -> (r: Result<&'static str, String>)
    ensures
        r is Ok <==> {
            let l = spec_ascii_lower(spec_trimmed(provider@));
            l == "nvidia"@ || l == "openai"@ || l == "voyage"@ || l == "voyageai"@ || l
                == "ollama"@ || l == "local"@
        },
        match r {
            Ok(m) => {
                let l = spec_ascii_lower(spec_trimmed(provider@));
                (l == "nvidia"@ && m@ == "nvidia/nv-embed-v1"@) || (l == "openai"@ && m@
                    == "text-embedding-3-large"@) || ((l == "voyage"@ || l == "voyageai"@) && m@
                    == "voyage-code-3"@) || ((l == "ollama"@ || l == "local"@) && m@
                    == "nomic-embed-text"@)
            },
            Err(_) => true,
        },
{
    match EmbeddingProviderKind::parse(provider) {
        Ok(EmbeddingProviderKind::Nvidia) => Ok("nvidia/nv-embed-v1"),
        Ok(EmbeddingProviderKind::Openai) => Ok("text-embedding-3-large"),
        Ok(EmbeddingProviderKind::Voyage) => Ok("voyage-code-3"),
        Ok(EmbeddingProviderKind::Ollama) => Ok("nomic-embed-text"),
        Err(e) => Err(e),
    }
}

fn opt_trimmed_nonempty(o: &Option<String>) -> (r: bool)
    ensures
        r == match o {
            Some(s) => spec_trimmed(s@).len() > 0,
            None => false,
        },
{
    match o {
        Some(s) => {
            let t = trim_blanks(s.as_str());
            t.as_str().unicode_len() > 0
        },
        None => false,
    }
}

/// The embedding runtime configuration, validated on construction.
#[derive(Debug, Clone)]
pub struct EmbeddingRuntimeConfig {
    pub mode: EmbeddingModeKind,
    pub provider: EmbeddingProviderKind,
    pub model: String,
    pub nvidia_api_key: Option<String>,
    pub openai_api_key: Option<String>,
    pub voyage_api_key: Option<String>,
    pub ollama_host: Option<String>,
    pub voyage_input_type: String,
    pub voyage_output_dimension: Option<u16>,
    pub voyage_output_dtype: String,
    pub voyage_truncation: bool,
    pub request_timeout_seconds: u64,
}

impl EmbeddingRuntimeConfig {
    /// What each mode and provider combination requires: a key for each
    /// external provider, a host for the local one, valid voyage options,
    /// and a non-empty model.
    pub fn validate_runtime_requirements(&self) -> (r: Result<(), String>)
        ensures
            r is Ok ==> spec_trimmed(self.model@).len() > 0,
            r is Ok && self.mode == EmbeddingModeKind::RunpodGpu ==> self.provider
                == EmbeddingProviderKind::Ollama,
            r is Ok && self.mode == EmbeddingModeKind::ExternalApi ==> self.provider
                != EmbeddingProviderKind::Ollama,
    {
        match self.mode {
            EmbeddingModeKind::ExternalApi => {
                match self.provider {
                    EmbeddingProviderKind::Nvidia => {
                        if !opt_trimmed_nonempty(&self.nvidia_api_key) {
                            return Err(
                                String::from_str(
                                    "Embedding misconfiguration: provider nvidia requires its key",
                                ),
                            );
                        }
                    },
                    EmbeddingProviderKind::Openai => {
                        if !opt_trimmed_nonempty(&self.openai_api_key) {
                            return Err(
                                String::from_str(
                                    "Embedding misconfiguration: provider openai requires its key",
                                ),
                            );
                        }
                    },
                    EmbeddingProviderKind::Voyage => {
                        if !opt_trimmed_nonempty(&self.voyage_api_key) {
                            return Err(
                                String::from_str(
                                    "Embedding misconfiguration: provider voyage requires its key",
                                ),
                            );
                        }
                        let it_ok = str_eq_str(self.voyage_input_type.as_str(), "document")
                            || str_eq_str(self.voyage_input_type.as_str(), "query");
                        if !it_ok {
                            return Err(
                                String::from_str(
                                    "Embedding misconfiguration: voyage input type must be document or query",
                                ),
                            );
                        }
                        let dt = self.voyage_output_dtype.as_str();
                        let dt_ok = str_eq_str(dt, "float") || str_eq_str(dt, "int8")
                            || str_eq_str(dt, "uint8") || str_eq_str(dt, "binary") || str_eq_str(
                            dt,
                            "ubinary",
                        );
                        if !dt_ok {
                            return Err(
                                String::from_str(
                                    "Embedding misconfiguration: unsupported voyage output dtype",
                                ),
                            );
                        }
                        match self.voyage_output_dimension {
                            Some(dim) => {
                                let model_l = ascii_lower(self.model.as_str());
                                let t = trim_blanks(model_l.as_str());
                                if str_eq_str(t.as_str(), "voyage-code-3") && !(dim == 256 || dim
                                    == 512 || dim == 1024 || dim == 2048) {
                                    return Err(
                                        String::from_str(
                                            "Embedding misconfiguration: unsupported voyage output dimension",
                                        ),
                                    );
                                }
                            },
                            None => {},
                        }
                    },
                    EmbeddingProviderKind::Ollama => {
                        return Err(
                            String::from_str(
                                "Embedding misconfiguration: the local provider is not valid with the external mode",
                            ),
                        );
                    },
                }
            },
            EmbeddingModeKind::RunpodGpu => {
                match self.provider {
                    EmbeddingProviderKind::Ollama => {},
                    _ => {
                        return Err(
                            String::from_str(
                                "Embedding misconfiguration: the GPU mode supports the local provider only",
                            ),
                        );
                    },
                }
                if !opt_trimmed_nonempty(&self.ollama_host) {
                    return Err(
                        String::from_str(
                            "Embedding misconfiguration: the GPU mode requires the local host",
                        ),
                    );
                }
            },
        }
        let mt = trim_blanks(self.model.as_str());
        if mt.as_str().unicode_len() == 0 {
            return Err(
                String::from_str("Embedding misconfiguration: the model name is required"),
            );
        }
        Ok(())
    }

    /// Builds and validates the runtime configuration; base addresses are
    /// stored with trailing slashes removed by the caller.
    pub fn new(
        mode: &str,
        provider: &str,
        model: &str,
        nvidia_api_key: Option<String>,
        openai_api_key: Option<String>,
        voyage_api_key: Option<String>,
        ollama_host: Option<String>,
        voyage_input_type: String,
        voyage_output_dimension: Option<u16>,
        voyage_output_dtype: String,
        voyage_truncation: bool,
        request_timeout_seconds: u64,
    ) -> (r: Result<EmbeddingRuntimeConfig, String>)
        ensures
            r is Ok ==> spec_trimmed(r.unwrap().model@).len() > 0
                && r.unwrap().request_timeout_seconds >= 1,
    {
        let mode = match EmbeddingModeKind::parse(mode) {
            Ok(m) => m,
            Err(e) => { return Err(e) },
        };
        let provider = match EmbeddingProviderKind::parse(provider) {
            Ok(p) => p,
            Err(e) => { return Err(e) },
        };
        let model_t = trim_blanks(model);
        if model_t.as_str().unicode_len() == 0 {
            return Err(String::from_str("The embedding model must be non-empty"));
        }
        let it = trim_blanks(voyage_input_type.as_str());
        let it_l = ascii_lower(it.as_str());
        let dt = trim_blanks(voyage_output_dtype.as_str());
        let dt_l = ascii_lower(dt.as_str());
        let config = EmbeddingRuntimeConfig {
            mode,
            provider,
            model: model_t,
            nvidia_api_key,
            openai_api_key,
            voyage_api_key,
            ollama_host,
            voyage_input_type: it_l,
            voyage_output_dimension,
            voyage_output_dtype: dt_l,
            voyage_truncation,
            request_timeout_seconds: if request_timeout_seconds >= 1 {
                request_timeout_seconds
            } else {
                1
            },
        };
        match config.validate_runtime_requirements() {
            Ok(()) => Ok(config),
            Err(e) => Err(e),
        }
    }
}

} // verus!
