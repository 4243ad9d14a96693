//! Artifact naming: file names, output locations, download paths and
//! expiry arithmetic. The files themselves are created and removed by the
//! surrounding runtime.
use vstd::prelude::*;
use vstd::string::*;

verus! {

/// Relies on chrono's DateTime::from_timestamp_millis and its `%Y-%m-%d`
/// formatting: the UTC calendar date of an epoch-milliseconds reading,
/// a function of the argument alone.
pub uninterp spec fn date_stamp_of(now_ms: i64) -> Seq<char>;

/// Relies on chrono (DateTime::from_timestamp_millis, format "%Y-%m-%d"):
/// renders the UTC date of the given instant; an out-of-range reading
/// falls back to the epoch date.
#[verifier::external_body]
pub(crate) fn date_stamp(now_ms: i64) -> (r: String)
    ensures
        r@ == date_stamp_of(now_ms),
{
    let dt = chrono::DateTime::from_timestamp_millis(now_ms)
        .unwrap_or(chrono::DateTime::from_timestamp_millis(0).unwrap());
    dt.format("%Y-%m-%d").to_string()
}

/// The capsule file name of a job: source base name, the fixed capsule
/// tag, the date stamp and the capsule extension.
pub fn build_job_file_name(source_base_name: &str, date_stamp: &str) -> (r: String)
    ensures
        r@ == source_base_name@ + "-gitnexus-mem_capsule-"@ + date_stamp@ + ".mv2"@,
{
    let mut s = String::from_str(source_base_name);
    s.append("-gitnexus-mem_capsule-");
    s.append(date_stamp);
    s.append(".mv2");
    proof {
        assert(s@ =~= source_base_name@ + "-gitnexus-mem_capsule-"@ + date_stamp@ + ".mv2"@);
    }
    s
}

/// Output location of a job's artifact: `<root>/<job id>/<file name>`.
pub fn job_output_path(export_root: &str, job_id: &str, file_name: &str) -> (r: String)
    ensures
        r@ == export_root@ + "/"@ + job_id@ + "/"@ + file_name@,
{
    let mut s = String::from_str(export_root);
    s.append("/");
    s.append(job_id);
    s.append("/");
    s.append(file_name);
    proof {
        assert(s@ =~= export_root@ + "/"@ + job_id@ + "/"@ + file_name@);
    }
    s
}

/// The capsule file name a job writes at a given instant: the source
/// base name tagged and stamped with that instant's UTC date.
pub fn job_file_name_at(source_base_name: &str, now_ms: i64) -> (r: String)
    ensures
        r@ == source_base_name@ + "-gitnexus-mem_capsule-"@ + date_stamp_of(now_ms) + ".mv2"@,
{
    let stamp = date_stamp(now_ms);
    build_job_file_name(source_base_name, stamp.as_str())
}

/// Relative download path of a job's artifact.
pub fn download_url_for(job_id: &str) -> (r: String)
    ensures
        r@ == "/v1/exports/"@ + job_id@ + "/download"@,
{
    let mut s = String::from_str("/v1/exports/");
    s.append(job_id);
    s.append("/download");
    proof {
        assert(s@ =~= "/v1/exports/"@ + job_id@ + "/download"@);
    }
    s
}

/// Expiry instant: the completion time plus the retention window,
/// saturating at the clock's ceiling.
pub fn expires_at_ms(now_ms: u64, retention_seconds: u64) -> (r: u64)
    ensures
        retention_seconds <= (u64::MAX - now_ms) / 1000 ==> r == now_ms + retention_seconds
            * 1000,
        r >= now_ms,
{
    if retention_seconds <= (u64::MAX - now_ms) / 1000 {
        proof {
            assert(retention_seconds * 1000 <= u64::MAX - now_ms) by (nonlinear_arith)
                requires
                    retention_seconds as int <= ((u64::MAX - now_ms) as int) / 1000,
                    retention_seconds >= 0,
                    now_ms <= u64::MAX,
            ;
        }
        now_ms + retention_seconds * 1000
    } else {
        u64::MAX
    }
}

} // verus!
