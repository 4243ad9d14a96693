//! Arguments and path references of the in-worker execution entry: flag
//! parsing and the file-reference resolution rules.
use vstd::prelude::*;
use vstd::string::*;

use crate::embedding::default_model_for_provider;
use crate::strutil::{
    ascii_lower, spec_starts_with, str_eq_str, str_starts_with, str_suffix, trim_blanks,
};

verus! {

/// The execution entry's arguments.
#[derive(Debug, Clone)]
pub struct RunnerArgs {
    pub job_id: String,
    pub payload_ref: String,
    pub output_prefix: String,
    pub embedding_mode: String,
    pub embedding_provider: String,
    pub embedding_model: String,
}

/// Parses the execution entry's flag pairs, beginning after the
/// subcommand: unknown or valueless flags are rejected; the job,
/// payload and output flags are required; the embedding settings fall
/// back to their defaults.
pub fn parse_args(args: &Vec<String>) -> (r: Result<RunnerArgs, String>)
    ensures
        r is Ok ==> args.len() >= 2,
{
    if args.len() < 2 {
        return Err(String::from_str("missing subcommand"));
    }
    let mut job_id: Option<String> = None;
    let mut payload_ref: Option<String> = None;
    let mut output_prefix: Option<String> = None;
    let mut embedding_mode: Option<String> = None;
    let mut embedding_provider: Option<String> = None;
    let mut embedding_model: Option<String> = None;
    let mut i: usize = 2;
    while i < args.len()
        invariant
            2 <= i <= args.len() + 1,
        decreases args.len() - i,
    {
        if i + 1 >= args.len() {
            return Err(String::from_str("incomplete argument pair"));
        }
        let key = &args[i];
        let val = args[i + 1].clone();
        if str_eq_str(key.as_str(), "--job-id") {
            job_id = Some(val);
        } else if str_eq_str(key.as_str(), "--payload-ref") {
            payload_ref = Some(val);
        } else if str_eq_str(key.as_str(), "--output-prefix") {
            output_prefix = Some(val);
        } else if str_eq_str(key.as_str(), "--embedding-mode") {
            embedding_mode = Some(val);
        } else if str_eq_str(key.as_str(), "--embedding-provider") {
            embedding_provider = Some(val);
        } else if str_eq_str(key.as_str(), "--embedding-model") {
            embedding_model = Some(val);
        } else {
            return Err(String::from_str("unknown argument"));
        }
        i += 2;
    }
    let job_id = match job_id {
        Some(v) => v,
        None => { return Err(String::from_str("the job flag is required")) },
    };
    let payload_ref = match payload_ref {
        Some(v) => v,
        None => { return Err(String::from_str("the payload flag is required")) },
    };
    let output_prefix = match output_prefix {
        Some(v) => v,
        None => { return Err(String::from_str("the output flag is required")) },
    };
    let embedding_mode = match embedding_mode {
        Some(v) => v,
        None => String::from_str("external_api"),
    };
    let embedding_provider = match embedding_provider {
        Some(v) => v,
        None => String::from_str("nvidia"),
    };
    let embedding_model = match embedding_model {
        Some(v) => v,
        None => {
            let lowered = ascii_lower(embedding_provider.as_str());
            let t = trim_blanks(lowered.as_str());
            match default_model_for_provider(t.as_str()) {
                Ok(m) => String::from_str(m),
                Err(_) => String::from_str("nvidia/nv-embed-v1"),
            }
        },
    };
    Ok(
        RunnerArgs {
            job_id,
            payload_ref,
            output_prefix,
            embedding_mode,
            embedding_provider,
            embedding_model,
        },
    )
}

/// A file reference resolved to a path: a `file://` marker is stripped,
/// anything else stands as given.
pub fn resolve_file_ref_path(file_ref: &str) -> (r: String)
    ensures
        spec_starts_with(file_ref@, "file://"@) ==> r@ == file_ref@.skip("file://"@.len() as int),
        !spec_starts_with(file_ref@, "file://"@) ==> r@ == file_ref@,
{
    proof {
        reveal_strlit("file://");
    }
    if str_starts_with(file_ref, "file://") {
        proof {
            assert("file://"@.len() == 7);
        }
        str_suffix(file_ref, 7)
    } else {
        String::from_str(file_ref)
    }
}

/// The output prefix resolved to a directory: remote prefixes and the
/// filesystem root are refused; a `file://` marker is stripped.
pub fn resolve_output_prefix(prefix: &str) -> (r: Result<String, String>)
    ensures
        spec_starts_with(prefix@, "http://"@) || spec_starts_with(prefix@, "https://"@) ==> r
            is Err,
        r is Ok ==> r.unwrap()@ != "/"@,
{
    proof {
        reveal_strlit("http://");
        reveal_strlit("https://");
        reveal_strlit("file://");
        reveal_strlit("/");
    }
    if str_starts_with(prefix, "http://") || str_starts_with(prefix, "https://") {
        return Err(String::from_str("remote output prefixes are not supported here"));
    }
    let path = resolve_file_ref_path(prefix);
    if str_eq_str(path.as_str(), "/") {
        return Err(String::from_str("refusing to write output to the filesystem root"));
    }
    Ok(path)
}

} // verus!
