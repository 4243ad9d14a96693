//! Read-only query tools over the side-index: deterministic ranking
//! (score descending, then key ascending), cursor pagination, and a
//! confidence block per response.
//!
//! Ranked scores are held in millionths (`0 ..= 1_000_000` stands for
//! `0.0 ..= 1.0`); a row's sort entry stores the inverted score so the
//! shared ascending sort yields descending rank.
use vstd::prelude::*;
use vstd::string::*;

use crate::index::{
    CapsuleCapabilities, CapsuleIndex, EdgeRecord, HotspotRecord, NodeRecord, ProcessStepRecord,
    SymbolRecord,
};
use crate::order::{sort_entries, spec_entry_le, spec_lex_le, SortEntry};
use crate::strutil::{
    ascii_lower, find_sub, lemma_decimal_all_digits, lemma_decimal_len, lemma_decimal_value,
    lemma_zeros_prefix_val, lemma_zeros_val, normalize_text, parse_u64, push_char,
    spec_all_digits, spec_ascii_lower, spec_contains_seq, spec_decimal, spec_digits_val,
    spec_ends_with, spec_is_digit, spec_normalized, spec_parse_u64, spec_pow10,
    spec_starts_with, spec_to_lower, spec_trimmed, spec_zeros_of, str_contains, str_ends_with,
    str_eq_str, str_starts_with, str_suffix, trim_blanks, u64_to_string,
};

verus! {

/// One whole point of ranked score, in millionths.
pub const SCORE_ONE: u64 = 1000000;

#[derive(Debug, Clone, Copy, PartialEq, Eq, Structural)]
pub enum ToolErrorKind {
    InvalidArgument,
    NotFound,
    CapsuleIncompatible,
    Timeout,
    RateLimited,
    ResultTruncated,
    Internal,
}

pub open spec fn spec_error_code_str(k: ToolErrorKind) -> Seq<char> {
    match k {
        ToolErrorKind::InvalidArgument => "INVALID_ARGUMENT"@,
        ToolErrorKind::NotFound => "NOT_FOUND"@,
        ToolErrorKind::CapsuleIncompatible => "CAPSULE_INCOMPATIBLE"@,
        ToolErrorKind::Timeout => "TIMEOUT"@,
        ToolErrorKind::RateLimited => "RATE_LIMITED"@,
        ToolErrorKind::ResultTruncated => "RESULT_TRUNCATED"@,
        ToolErrorKind::Internal => "INTERNAL_ERROR"@,
    }
}

#[derive(Debug, Clone)]
pub struct ToolError {
    pub kind: ToolErrorKind,
    pub message: String,
    pub retryable: bool,
    pub retry_after_ms: Option<u64>,
    pub http_status: u16,
}

impl ToolError {
    pub fn code(&self) -> (r: &'static str)
        ensures
            r@ == spec_error_code_str(self.kind),
    {
        match self.kind {
            ToolErrorKind::InvalidArgument => "INVALID_ARGUMENT",
            ToolErrorKind::NotFound => "NOT_FOUND",
            ToolErrorKind::CapsuleIncompatible => "CAPSULE_INCOMPATIBLE",
            ToolErrorKind::Timeout => "TIMEOUT",
            ToolErrorKind::RateLimited => "RATE_LIMITED",
            ToolErrorKind::ResultTruncated => "RESULT_TRUNCATED",
            ToolErrorKind::Internal => "INTERNAL_ERROR",
        }
    }

    /// The JSON-RPC error code surfaced for this error.
    pub fn rpc_code(&self) -> (r: i64)
        ensures
            r == spec_rpc_code(self.kind),
    {
        match self.kind {
            ToolErrorKind::InvalidArgument => -32602,
            ToolErrorKind::NotFound => -32004,
            ToolErrorKind::CapsuleIncompatible => -32020,
            ToolErrorKind::ResultTruncated => -32010,
            ToolErrorKind::RateLimited => -32029,
            ToolErrorKind::Timeout => -32008,
            ToolErrorKind::Internal => -32603,
        }
    }

    pub fn invalid_argument(message: String) -> (r: ToolError)
        ensures
            r.kind == ToolErrorKind::InvalidArgument,
            r.message == message,
            !r.retryable,
            r.retry_after_ms is None,
            r.http_status == 400,
    {
        ToolError {
            kind: ToolErrorKind::InvalidArgument,
            message,
            retryable: false,
            retry_after_ms: None,
            http_status: 400,
        }
    }

    pub fn not_found(message: String) -> (r: ToolError)
        ensures
            r.kind == ToolErrorKind::NotFound,
            r.message == message,
            !r.retryable,
            r.retry_after_ms is None,
            r.http_status == 404,
    {
        ToolError {
            kind: ToolErrorKind::NotFound,
            message,
            retryable: false,
            retry_after_ms: None,
            http_status: 404,
        }
    }

    pub fn incompatible(message: String) -> (r: ToolError)
        ensures
            r.kind == ToolErrorKind::CapsuleIncompatible,
            r.message == message,
            !r.retryable,
            r.http_status == 400,
    {
        ToolError {
            kind: ToolErrorKind::CapsuleIncompatible,
            message,
            retryable: false,
            retry_after_ms: None,
            http_status: 400,
        }
    }

    pub fn timeout(message: String) -> (r: ToolError)
        ensures
            r.kind == ToolErrorKind::Timeout,
            r.message == message,
            r.retryable,
            r.retry_after_ms == Some(250u64),
            r.http_status == 408,
    {
        ToolError {
            kind: ToolErrorKind::Timeout,
            message,
            retryable: true,
            retry_after_ms: Some(250),
            http_status: 408,
        }
    }

    pub fn rate_limited(message: String, retry_after_ms: u64) -> (r: ToolError)
        ensures
            r.kind == ToolErrorKind::RateLimited,
            r.message == message,
            r.retryable,
            r.retry_after_ms == Some(retry_after_ms),
            r.http_status == 429,
    {
        ToolError {
            kind: ToolErrorKind::RateLimited,
            message,
            retryable: true,
            retry_after_ms: Some(retry_after_ms),
            http_status: 429,
        }
    }

    pub fn truncated(message: String) -> (r: ToolError)
        ensures
            r.kind == ToolErrorKind::ResultTruncated,
            r.message == message,
            r.retryable,
            r.retry_after_ms == Some(0u64),
            r.http_status == 200,
    {
        ToolError {
            kind: ToolErrorKind::ResultTruncated,
            message,
            retryable: true,
            retry_after_ms: Some(0),
            http_status: 200,
        }
    }

    pub fn internal(message: String) -> (r: ToolError)
        ensures
            r.kind == ToolErrorKind::Internal,
            r.message == message,
            r.retryable,
            r.retry_after_ms == Some(500u64),
            r.http_status == 500,
    {
        ToolError {
            kind: ToolErrorKind::Internal,
            message,
            retryable: true,
            retry_after_ms: Some(500),
            http_status: 500,
        }
    }
}

pub open spec fn spec_rpc_code(k: ToolErrorKind) -> int {
    match k {
        ToolErrorKind::InvalidArgument => -32602,
        ToolErrorKind::NotFound => -32004,
        ToolErrorKind::CapsuleIncompatible => -32020,
        ToolErrorKind::ResultTruncated => -32010,
        ToolErrorKind::RateLimited => -32029,
        ToolErrorKind::Timeout => -32008,
        ToolErrorKind::Internal => -32603,
    }
}

/// Clamp of a requested page size into `1 ..= max`, with a default when
/// absent.
pub fn parse_limit(limit: Option<u64>, default_limit: usize, max_limit: usize) -> (r: usize)
    requires
        1 <= default_limit <= max_limit,
    ensures
        r == (match limit {
            Some(v) => if v < 1 {
                1int
            } else if v > max_limit {
                max_limit as int
            } else {
                v as int
            },
            None => default_limit as int,
        }),
        1 <= r <= max_limit,
{
    match limit {
        Some(v) => {
            if v < 1 {
                1
            } else if v > max_limit as u64 {
                max_limit
            } else {
                v as usize
            }
        },
        None => default_limit,
    }
}

/// Confidence tier by score in millionths: high at or above 0.85, medium
/// at or above 0.60, else low.
pub open spec fn spec_tier_str(score_micro: int) -> Seq<char> {
    if score_micro >= 850000 {
        "high"@
    } else if score_micro >= 600000 {
        "medium"@
    } else {
        "low"@
    }
}

#[derive(Debug, Clone)]
pub struct ConfidenceBlock {
    pub score_micro: u64,
    pub tier: String,
    pub factors: Vec<String>,
    pub warnings: Vec<String>,
}

pub fn confidence_block(score_micro: u64, factors: Vec<String>, warnings: Vec<String>) -> (r:
    ConfidenceBlock)
    ensures
        r.score_micro == score_micro,
        r.tier@ == spec_tier_str(score_micro as int),
        r.factors == factors,
        r.warnings == warnings,
{
    let tier = if score_micro >= 850000 {
        String::from_str("high")
    } else if score_micro >= 600000 {
        String::from_str("medium")
    } else {
        String::from_str("low")
    };
    ConfidenceBlock { score_micro, tier, factors, warnings }
}

/// Fractional part of a score in millionths, zero-padded to six digits.
pub open spec fn spec_pad6(n: int) -> Seq<char> {
    spec_zeros_of(6 - spec_decimal(n).len()) + spec_decimal(n)
}

/// Canonical text of a score in millionths: whole part, a dot, six
/// fractional digits.
pub open spec fn spec_score_text(score_micro: int) -> Seq<char> {
    spec_decimal(score_micro / (SCORE_ONE as int)) + seq!['.'] + spec_pad6(
        score_micro % (SCORE_ONE as int),
    )
}

/// Shape of a canonical score text: digits, one dot, six fractional
/// digits; every character is a digit or the dot, never a colon.
pub proof fn lemma_score_text_shape(s: int)
    requires
        0 <= s <= u64::MAX,
    ensures
        ({
            let st = spec_score_text(s);
            let dec = spec_decimal(s / (SCORE_ONE as int));
            let frac = spec_pad6(s % (SCORE_ONE as int));
            &&& frac.len() == 6
            &&& st.len() == dec.len() + 7
            &&& st.subrange(0, dec.len() as int) == dec
            &&& st[dec.len() as int] == '.'
            &&& st.skip(dec.len() as int + 1) == frac
            &&& spec_all_digits(dec)
            &&& spec_all_digits(frac)
            &&& spec_digits_val(dec) == s / (SCORE_ONE as int)
            &&& spec_digits_val(frac) == s % (SCORE_ONE as int)
            &&& (forall|p: int|
                0 <= p < dec.len() ==> (#[trigger] st[p]) as u32 != 58 && st[p] as u32 != 46)
            &&& (forall|p: int| 0 <= p < st.len() ==> (#[trigger] st[p]) as u32 != 58)
        }),
{
    let st = spec_score_text(s);
    let whole = s / (SCORE_ONE as int);
    let f = s % (SCORE_ONE as int);
    let dec = spec_decimal(whole);
    let fdec = spec_decimal(f);
    let frac = spec_pad6(f);
    lemma_decimal_all_digits(whole);
    lemma_decimal_all_digits(f);
    lemma_decimal_value(whole);
    lemma_decimal_value(f);
    assert(spec_pow10(0) == 1);
    assert(spec_pow10(1) == 10);
    assert(spec_pow10(2) == 100);
    assert(spec_pow10(3) == 1000);
    assert(spec_pow10(4) == 10000);
    assert(spec_pow10(5) == 100000);
    assert(spec_pow10(6) == 1000000);
    lemma_decimal_len(f, 6);
    lemma_zeros_val(6 - fdec.len());
    lemma_zeros_prefix_val(6 - fdec.len(), fdec);
    assert(spec_zeros_of(6 - fdec.len()).len() == 6 - fdec.len()) by {
        lemma_zeros_len(6 - fdec.len());
    }
    assert(frac.len() == 6);
    assert(spec_all_digits(frac)) by {
        assert(forall|p: int|
            0 <= p < frac.len() ==> (#[trigger] frac[p]) == (if p < 6 - fdec.len() {
                spec_zeros_of(6 - fdec.len())[p]
            } else {
                fdec[p - (6 - fdec.len())]
            }));
    }
    assert(st =~= dec + seq!['.'] + frac);
    assert(st.subrange(0, dec.len() as int) =~= dec);
    assert(st[dec.len() as int] == '.');
    assert(st.skip(dec.len() as int + 1) =~= frac);
    assert(('.' as u32) == 46);
    assert(forall|p: int|
        0 <= p < dec.len() ==> (#[trigger] st[p]) == dec[p] && spec_is_digit(dec[p]));
    assert(forall|p: int|
        dec.len() + 1 <= p < st.len() ==> (#[trigger] st[p]) == frac[p - dec.len() - 1]);
    assert(forall|p: int| 0 <= p < st.len() ==> (#[trigger] st[p]) as u32 != 58);
}

/// Zero padding has exactly the asked-for length.
pub proof fn lemma_zeros_len(n: int)
    ensures
        spec_zeros_of(n).len() == (if n <= 0 {
            0int
        } else {
            n
        }),
    decreases n,
{
    if n > 0 {
        lemma_zeros_len(n - 1);
    }
}

/// In a canonical cursor the first `::` sits exactly after the score
/// text: the score text itself carries no colon.
proof fn lemma_sep_is_canonical(cursor: Seq<char>, s: int, k: Seq<char>, sep: int)
    requires
        0 <= s <= u64::MAX,
        cursor == spec_score_text(s) + "::"@ + k,
        0 <= sep,
        sep + 2 <= cursor.len(),
        cursor.subrange(sep, sep + 2) == "::"@,
        forall|p: int| 0 <= p < sep ==> (#[trigger] cursor.subrange(p, p + 2)) != "::"@,
    ensures
        sep == spec_score_text(s).len(),
{
    reveal_strlit("::");
    lemma_score_text_shape(s);
    let st = spec_score_text(s);
    if sep < st.len() {
        assert(cursor.subrange(sep, sep + 2)[0] == cursor[sep]);
        assert(cursor[sep] == st[sep]);
        assert(("::"@)[0] == ':');
        assert((':' as u32) == 58);
        assert(false);
    }
    if sep > st.len() {
        assert(cursor.subrange(st.len() as int, st.len() as int + 2) =~= "::"@);
        assert(false);
    }
}

/// In a canonical score text the first dot sits exactly after the whole
/// part: the whole part is all digits.
proof fn lemma_dot_is_canonical(stx: Seq<char>, s: int, dot: int)
    requires
        0 <= s <= u64::MAX,
        stx == spec_score_text(s),
        0 <= dot,
        dot + 1 <= stx.len(),
        stx.subrange(dot, dot + 1) == "."@,
        forall|p: int| 0 <= p < dot ==> (#[trigger] stx.subrange(p, p + 1)) != "."@,
    ensures
        dot == spec_decimal(s / (SCORE_ONE as int)).len(),
{
    reveal_strlit(".");
    lemma_score_text_shape(s);
    let dec = spec_decimal(s / (SCORE_ONE as int));
    if dot < dec.len() {
        assert(stx.subrange(dot, dot + 1)[0] == stx[dot]);
        assert(("."@)[0] == '.');
        assert(('.' as u32) == 46);
        assert(false);
    }
    if dot > dec.len() {
        assert(stx.subrange(dec.len() as int, dec.len() as int + 1) =~= "."@);
        assert(false);
    }
}

fn pad6(n: u64) -> (r: String)
    requires
        n < SCORE_ONE,
    ensures
        r@ == spec_pad6(n as int),
{
    let d = u64_to_string(n);
    let dl = d.as_str().unicode_len();
    let mut out = String::new();
    let target: usize = if dl >= 6 {
        0
    } else {
        6 - dl
    };
    let mut k: usize = 0;
    while k < target
        invariant
            0 <= k <= target,
            target == if dl >= 6 {
                0int
            } else {
                6 - dl
            },
            dl == spec_decimal(n as int).len(),
            out@ == spec_zeros_of(k as int),
        decreases target - k,
    {
        push_char(&mut out, '0');
        k += 1;
    }
    proof {
        if dl >= 6 {
            assert(spec_zeros_of(6 - spec_decimal(n as int).len()) =~= Seq::<char>::empty());
        }
    }
    out.append(d.as_str());
    out
}

/// Opaque pagination cursor: `<score>::<tiebreak key>` with the score in
/// canonical six-decimal form.
pub fn encode_cursor(score_micro: u64, key: &str) -> (r: String)
    ensures
        r@ == spec_score_text(score_micro as int) + "::"@ + key@,
{
    let whole = u64_to_string(score_micro / SCORE_ONE);
    let frac = pad6(score_micro % SCORE_ONE);
    let mut out = whole;
    push_char(&mut out, '.');
    out.append(frac.as_str());
    out.append("::");
    out.append(key);
    proof {
        assert(out@ =~= spec_score_text(score_micro as int) + "::"@ + key@);
    }
    out
}

/// Decodes a cursor. Only canonical cursors are accepted: the decoded
/// score and key re-encode to exactly the given text.
#[verifier::rlimit(100)]
#[verifier::spinoff_prover]
pub fn decode_cursor(cursor: &str) -> (r: Option<(u64, String)>)
    ensures
        match r {
            Some(p) => cursor@ == spec_score_text(p.0 as int) + "::"@ + p.1@,
            None => forall|s: u64, k: Seq<char>|
                cursor@ != spec_score_text(s as int) + "::"@ + k,
        },
{
    proof {
        reveal_strlit("::");
        reveal_strlit(".");
    }
    let sep = match find_sub(cursor, "::") {
        Some(p) => p,
        None => {
            proof {
                assert forall|s: u64, k: Seq<char>|
                    cursor@ != spec_score_text(s as int) + "::"@ + k by {
                    if cursor@ == spec_score_text(s as int) + "::"@ + k {
                        let st = spec_score_text(s as int);
                        assert(cursor@.subrange(st.len() as int, st.len() as int + 2)
                            =~= "::"@);
                        assert(spec_contains_seq(cursor@, "::"@));
                        assert(false);
                    }
                }
            }
            return None;
        },
    };
    let total_len = cursor.unicode_len();
    proof {
        assert("::"@.len() == 2);
        assert(sep + 2 <= total_len);
    }
    let score_text = cursor.substring_char(0, sep);
    let key = str_suffix(cursor, sep + 2);
    let dot = match find_sub(score_text, ".") {
        Some(p) => p,
        None => {
            proof {
                assert forall|s: u64, k: Seq<char>|
                    cursor@ != spec_score_text(s as int) + "::"@ + k by {
                    if cursor@ == spec_score_text(s as int) + "::"@ + k {
                        lemma_sep_is_canonical(cursor@, s as int, k, sep as int);
                        lemma_score_text_shape(s as int);
                        let st = spec_score_text(s as int);
                        let dec = spec_decimal(s as int / (SCORE_ONE as int));
                        assert(score_text@ =~= st);
                        assert(score_text@.subrange(dec.len() as int, dec.len() as int + 1)
                            =~= "."@);
                        assert(spec_contains_seq(score_text@, "."@));
                        assert(false);
                    }
                }
            }
            return None;
        },
    };
    proof {
        assert("."@.len() == 1);
    }
    let st_len = score_text.unicode_len();
    if st_len < dot + 2 {
        proof {
            assert forall|s: u64, k: Seq<char>|
                cursor@ != spec_score_text(s as int) + "::"@ + k by {
                if cursor@ == spec_score_text(s as int) + "::"@ + k {
                    lemma_sep_is_canonical(cursor@, s as int, k, sep as int);
                    lemma_score_text_shape(s as int);
                    assert(score_text@ =~= spec_score_text(s as int));
                    lemma_dot_is_canonical(score_text@, s as int, dot as int);
                    assert(false);
                }
            }
        }
        return None;
    }
    let whole_text = score_text.substring_char(0, dot);
    let frac_text = str_suffix(score_text, dot + 1);
    let whole = match parse_u64(whole_text) {
        Some(w) => w,
        None => {
            proof {
                assert forall|s: u64, k: Seq<char>|
                    cursor@ != spec_score_text(s as int) + "::"@ + k by {
                    if cursor@ == spec_score_text(s as int) + "::"@ + k {
                        lemma_sep_is_canonical(cursor@, s as int, k, sep as int);
                        lemma_score_text_shape(s as int);
                        assert(score_text@ =~= spec_score_text(s as int));
                        lemma_dot_is_canonical(score_text@, s as int, dot as int);
                        let dec = spec_decimal(s as int / (SCORE_ONE as int));
                        assert(whole_text@ =~= dec);
                        assert(spec_parse_u64(whole_text@) == Some(
                            s as int / (SCORE_ONE as int),
                        ));
                        assert(false);
                    }
                }
            }
            return None;
        },
    };
    let frac = match parse_u64(frac_text.as_str()) {
        Some(f) => f,
        None => {
            proof {
                assert forall|s: u64, k: Seq<char>|
                    cursor@ != spec_score_text(s as int) + "::"@ + k by {
                    if cursor@ == spec_score_text(s as int) + "::"@ + k {
                        lemma_sep_is_canonical(cursor@, s as int, k, sep as int);
                        lemma_score_text_shape(s as int);
                        assert(score_text@ =~= spec_score_text(s as int));
                        lemma_dot_is_canonical(score_text@, s as int, dot as int);
                        let fr = spec_pad6(s as int % (SCORE_ONE as int));
                        assert(frac_text@ =~= fr);
                        assert(spec_parse_u64(frac_text@) == Some(
                            s as int % (SCORE_ONE as int),
                        ));
                        assert(false);
                    }
                }
            }
            return None;
        },
    };
    if frac >= SCORE_ONE {
        proof {
            assert forall|s: u64, k: Seq<char>|
                cursor@ != spec_score_text(s as int) + "::"@ + k by {
                if cursor@ == spec_score_text(s as int) + "::"@ + k {
                    lemma_sep_is_canonical(cursor@, s as int, k, sep as int);
                    lemma_score_text_shape(s as int);
                    assert(score_text@ =~= spec_score_text(s as int));
                    lemma_dot_is_canonical(score_text@, s as int, dot as int);
                    assert(frac_text@ =~= spec_pad6(s as int % (SCORE_ONE as int)));
                    assert(frac == s as int % (SCORE_ONE as int));
                    assert(false);
                }
            }
        }
        return None;
    }
    if whole > (u64::MAX - frac) / SCORE_ONE {
        proof {
            assert forall|s: u64, k: Seq<char>|
                cursor@ != spec_score_text(s as int) + "::"@ + k by {
                if cursor@ == spec_score_text(s as int) + "::"@ + k {
                    lemma_sep_is_canonical(cursor@, s as int, k, sep as int);
                    lemma_score_text_shape(s as int);
                    assert(score_text@ =~= spec_score_text(s as int));
                    lemma_dot_is_canonical(score_text@, s as int, dot as int);
                    assert(whole_text@ =~= spec_decimal(s as int / (SCORE_ONE as int)));
                    assert(frac_text@ =~= spec_pad6(s as int % (SCORE_ONE as int)));
                    assert(whole == s as int / (SCORE_ONE as int));
                    assert(frac == s as int % (SCORE_ONE as int));
                    assert(s as int == (whole as int) * (SCORE_ONE as int) + frac);
                    assert(whole as int <= ((u64::MAX - frac) as int) / (SCORE_ONE as int))
                        by (nonlinear_arith)
                        requires
                            s as int == (whole as int) * (SCORE_ONE as int) + frac,
                            0 <= frac < SCORE_ONE,
                            s <= u64::MAX,
                            SCORE_ONE == 1000000,
                            whole >= 0,
                    ;
                    assert(false);
                }
            }
        }
        return None;
    }
    proof {
        assert((whole as int) * (SCORE_ONE as int) + frac <= u64::MAX) by (nonlinear_arith)
            requires
                whole as int <= ((u64::MAX - frac) as int) / (SCORE_ONE as int),
                0 <= frac < SCORE_ONE,
                SCORE_ONE == 1000000,
                whole >= 0,
        ;
    }
    let score = whole * SCORE_ONE + frac;
    let reencoded = encode_cursor(score, key.as_str());
    if str_eq_str(reencoded.as_str(), cursor) {
        Some((score, key))
    } else {
        proof {
            assert forall|s: u64, k: Seq<char>|
                cursor@ != spec_score_text(s as int) + "::"@ + k by {
                if cursor@ == spec_score_text(s as int) + "::"@ + k {
                    lemma_sep_is_canonical(cursor@, s as int, k, sep as int);
                    lemma_score_text_shape(s as int);
                    assert(score_text@ =~= spec_score_text(s as int));
                    lemma_dot_is_canonical(score_text@, s as int, dot as int);
                    assert(whole_text@ =~= spec_decimal(s as int / (SCORE_ONE as int)));
                    assert(frac_text@ =~= spec_pad6(s as int % (SCORE_ONE as int)));
                    assert(whole == s as int / (SCORE_ONE as int));
                    assert(frac == s as int % (SCORE_ONE as int));
                    assert(score == s);
                    assert(key@ =~= k);
                    assert(reencoded@ == spec_score_text(score as int) + "::"@ + key@);
                    assert(reencoded@ == cursor@);
                    assert(false);
                }
            }
        }
        None
    }
}


/// Some node of the index carries this identifier.
pub open spec fn spec_node_known(nodes: Seq<NodeRecord>, id: Seq<char>) -> bool {
    exists|i: int| 0 <= i < nodes.len() && (#[trigger] nodes[i].id@) == id
}

/// The first node under an identifier: the match every identifier lookup
/// resolves to.
pub open spec fn spec_first_node(nodes: Seq<NodeRecord>, id: Seq<char>, i: int) -> bool {
    &&& 0 <= i < nodes.len()
    &&& nodes[i].id@ == id
    &&& forall|k: int| 0 <= k < i ==> (#[trigger] nodes[k].id@) != id
}

/// A row passes the cursor when it ranks strictly after the cursor row:
/// lower score, or equal score and a strictly greater tiebreak key.
pub open spec fn spec_cursor_passes(e: SortEntry, cs: int, ck: Seq<char>) -> bool {
    let score = SCORE_ONE - e.num;
    score < cs || (score == cs && spec_lex_le(ck, e.text@) && ck != e.text@)
}

fn cursor_passes(e: &SortEntry, cs: u64, ck: &String) -> (r: bool)
    requires
        e.num <= SCORE_ONE,
    ensures
        r == spec_cursor_passes(*e, cs as int, ck@),
{
    let score = SCORE_ONE - e.num;
    if score < cs {
        true
    } else if score == cs {
        let le = crate::order::str_lex_le(e.text.as_str(), ck.as_str());
        if le {
            proof {
                if ck@ != e.text@ && spec_lex_le(ck@, e.text@) {
                    crate::order::lemma_lex_antisym(e.text@, ck@);
                }
            }
            false
        } else {
            proof {
                crate::order::lemma_lex_total(e.text@, ck@);
            }
            true
        }
    } else {
        false
    }
}

/// A page of ranked rows: the slice of the sorted rows past the cursor,
/// with the follow-up cursor and the truncation flag. The sorted whole and
/// the slice start are carried as ghost witnesses.
pub struct RankedPage {
    pub entries: Vec<SortEntry>,
    pub next_cursor: Option<String>,
    pub truncated: bool,
    pub all_sorted: Ghost<Seq<SortEntry>>,
    pub start: Ghost<int>,
}

impl RankedPage {
    /// The page is exactly the window `[start, start + limit)` of the
    /// ranked rows: a sorted permutation of the input, the start placed
    /// directly after the cursor position.
    pub open spec fn wf_page(
        self,
        rows: Seq<SortEntry>,
        limit: int,
        cursor: Option<(int, Seq<char>)>,
    ) -> bool {
        let ss = self.all_sorted@;
        let start = self.start@;
        let end = if start + limit <= ss.len() {
            start + limit
        } else {
            ss.len() as int
        };
        &&& ss.to_multiset() == rows.to_multiset()
        &&& forall|i: int, j: int|
            0 <= i <= j < ss.len() ==> spec_entry_le(#[trigger] ss[i], #[trigger] ss[j])
        &&& 0 <= start <= ss.len()
        &&& match cursor {
            Some(c) => (forall|k: int| 0 <= k < start ==> !spec_cursor_passes(
                #[trigger] ss[k],
                c.0,
                c.1,
            )) && (start < ss.len() ==> spec_cursor_passes(ss[start], c.0, c.1)),
            None => start == 0,
        }
        &&& self.entries@ == ss.subrange(start, end)
        &&& self.truncated == (end < ss.len())
        &&& self.entries.len() <= limit
        &&& match self.next_cursor {
            Some(nc) => self.truncated && end > start && nc@ == spec_score_text(
                SCORE_ONE - ss[end - 1].num,
            ) + "::"@ + ss[end - 1].text@,
            None => !self.truncated || end == start,
        }
    }
}

/// Sorts the rows (score descending, key ascending), drops everything at
/// or before the cursor position, and returns at most `limit` rows.
pub fn paginate_ranked(rows: Vec<SortEntry>, limit: usize, cursor: Option<(u64, String)>) -> (r:
    RankedPage)
    requires
        limit >= 1,
        forall|i: int| 0 <= i < rows.len() ==> (#[trigger] rows[i].num) <= SCORE_ONE,
    ensures
        r.wf_page(
            rows@,
            limit as int,
            match cursor {
                Some(c) => Some((c.0 as int, c.1@)),
                None => None::<(int, Seq<char>)>,
            },
        ),
{
    let ghost rows0 = rows@;
    let sorted = sort_entries(rows);
    proof {
        crate::order::lemma_permutation_contains(rows0, sorted@);
        assert forall|i: int| 0 <= i < sorted.len() implies (#[trigger] sorted[i].num)
            <= SCORE_ONE by {
            assert(rows0.contains(sorted[i]));
            let j = choose|j: int| 0 <= j < rows0.len() && rows0[j] == sorted[i];
        }
    }
    let mut start: usize = 0;
    match &cursor {
        Some(c) => {
            while start < sorted.len() && !cursor_passes(&sorted[start], c.0, &c.1)
                invariant
                    0 <= start <= sorted.len(),
                    forall|i: int| 0 <= i < sorted.len() ==> (#[trigger] sorted[i].num)
                        <= SCORE_ONE,
                    forall|k: int|
                        0 <= k < start ==> !spec_cursor_passes(
                            #[trigger] sorted@[k],
                            c.0 as int,
                            c.1@,
                        ),
                decreases sorted.len() - start,
            {
                start += 1;
            }
        },
        None => {},
    }
    let end: usize = if sorted.len() - start >= limit {
        start + limit
    } else {
        sorted.len()
    };
    let mut page: Vec<SortEntry> = Vec::new();
    let mut k: usize = start;
    while k < end
        invariant
            start <= k <= end <= sorted.len(),
            page@ =~= sorted@.subrange(start as int, k as int),
        decreases end - k,
    {
        page.push(sorted[k].clone());
        k += 1;
        proof {
            assert(page@ =~= sorted@.subrange(start as int, k as int));
        }
    }
    let truncated = end < sorted.len();
    let next_cursor: Option<String> = if truncated && end > start {
        let last = &sorted[end - 1];
        Some(encode_cursor(SCORE_ONE - last.num, last.text.as_str()))
    } else {
        None
    };
    proof {
        assert(page@ == sorted@.subrange(
            start as int,
            if start + limit <= sorted@.len() {
                start as int + limit
            } else {
                sorted@.len() as int
            },
        ));
    }
    RankedPage {
        entries: page,
        next_cursor,
        truncated,
        all_sorted: Ghost(sorted@),
        start: Ghost(start as int),
    }
}


/// First node with this identifier, if any.
pub fn find_node_index(nodes: &Vec<NodeRecord>, id: &String) -> (r: Option<usize>)
    ensures
        r is Some <==> spec_node_known(nodes@, id@),
        match r {
            Some(i) => spec_first_node(nodes@, id@, i as int),
            None => forall|k: int| 0 <= k < nodes.len() ==> (#[trigger] nodes[k].id@) != id@,
        },
{
    let mut i: usize = 0;
    while i < nodes.len()
        invariant
            0 <= i <= nodes.len(),
            forall|k: int| 0 <= k < i ==> (#[trigger] nodes[k].id@) != id@,
        decreases nodes.len() - i,
    {
        if nodes[i].id.eq(id) {
            return Some(i);
        }
        i += 1;
    }
    None
}

/// First edge with this identifier, if any.
pub fn find_edge_index(edges: &Vec<EdgeRecord>, id: &String) -> (r: Option<usize>)
    ensures
        match r {
            Some(i) => i < edges.len() && edges[i as int].id@ == id@ && forall|k: int|
                0 <= k < i ==> (#[trigger] edges[k].id@) != id@,
            None => forall|k: int| 0 <= k < edges.len() ==> (#[trigger] edges[k].id@) != id@,
        },
{
    let mut i: usize = 0;
    while i < edges.len()
        invariant
            0 <= i <= edges.len(),
            forall|k: int| 0 <= k < i ==> (#[trigger] edges[k].id@) != id@,
        decreases edges.len() - i,
    {
        if edges[i].id.eq(id) {
            return Some(i);
        }
        i += 1;
    }
    None
}

/// The node fields every tool response shows.
#[derive(Debug)]
pub struct NodePayload {
    pub id: String,
    pub label: String,
    pub name: String,
    pub file_path: String,
    pub start_line: Option<usize>,
    pub end_line: Option<usize>,
    pub language: Option<String>,
    pub uri: String,
}

impl Clone for NodePayload {
    fn clone(&self) -> (r: Self)
        ensures
            r == *self,
    {
        NodePayload {
            id: self.id.clone(),
            label: self.label.clone(),
            name: self.name.clone(),
            file_path: self.file_path.clone(),
            start_line: self.start_line,
            end_line: self.end_line,
            language: match &self.language {
                Some(l) => Some(l.clone()),
                None => None,
            },
            uri: self.uri.clone(),
        }
    }
}

/// The payload mirrors some node of the index.
pub open spec fn spec_node_payload_sound(p: NodePayload, nodes: Seq<NodeRecord>) -> bool {
    exists|x: int| 0 <= x < nodes.len() && spec_node_payload(p, #[trigger] nodes[x])
}

/// The payload mirrors the record field for field.
pub open spec fn spec_node_payload(p: NodePayload, n: NodeRecord) -> bool {
    &&& p.id@ == n.id@
    &&& p.label@ == n.label@
    &&& p.name@ == n.name@
    &&& p.file_path@ == n.file_path@
    &&& p.start_line == n.start_line
    &&& p.end_line == n.end_line
    &&& p.uri@ == n.uri@
}

pub fn node_payload(n: &NodeRecord) -> (r: NodePayload)
    ensures
        spec_node_payload(r, *n),
{
    NodePayload {
        id: n.id.clone(),
        label: n.label.clone(),
        name: n.name.clone(),
        file_path: n.file_path.clone(),
        start_line: n.start_line,
        end_line: n.end_line,
        language: match &n.language {
            Some(l) => Some(l.clone()),
            None => None,
        },
        uri: n.uri.clone(),
    }
}

/// The edge fields every tool response shows.
#[derive(Debug)]
pub struct EdgePayload {
    pub id: String,
    pub relation_type: String,
    pub source_id: String,
    pub target_id: String,
    pub confidence_milli: u32,
    pub reason: String,
    pub step: Option<usize>,
    pub uri: String,
}

impl Clone for EdgePayload {
    fn clone(&self) -> (r: Self)
        ensures
            r == *self,
    {
        EdgePayload {
            id: self.id.clone(),
            relation_type: self.relation_type.clone(),
            source_id: self.source_id.clone(),
            target_id: self.target_id.clone(),
            confidence_milli: self.confidence_milli,
            reason: self.reason.clone(),
            step: self.step,
            uri: self.uri.clone(),
        }
    }
}

pub open spec fn spec_edge_payload(p: EdgePayload, e: EdgeRecord) -> bool {
    &&& p.id@ == e.id@
    &&& p.relation_type@ == e.relation_type@
    &&& p.source_id@ == e.source_id@
    &&& p.target_id@ == e.target_id@
    &&& p.confidence_milli == e.confidence_milli
    &&& p.reason@ == e.reason@
    &&& p.step == e.step
    &&& p.uri@ == e.uri@
}

pub fn edge_payload(e: &EdgeRecord) -> (r: EdgePayload)
    ensures
        spec_edge_payload(r, *e),
{
    EdgePayload {
        id: e.id.clone(),
        relation_type: e.relation_type.clone(),
        source_id: e.source_id.clone(),
        target_id: e.target_id.clone(),
        confidence_milli: e.confidence_milli,
        reason: e.reason.clone(),
        step: e.step,
        uri: e.uri.clone(),
    }
}

/// Number of edges leaving this node.
pub open spec fn spec_out_degree(edges: Seq<EdgeRecord>, id: Seq<char>) -> int
    decreases edges.len(),
{
    if edges.len() == 0 {
        0
    } else {
        spec_out_degree(edges.drop_last(), id) + if edges.last().source_id@ == id {
            1int
        } else {
            0int
        }
    }
}

/// Number of edges entering this node.
pub open spec fn spec_in_degree(edges: Seq<EdgeRecord>, id: Seq<char>) -> int
    decreases edges.len(),
{
    if edges.len() == 0 {
        0
    } else {
        spec_in_degree(edges.drop_last(), id) + if edges.last().target_id@ == id {
            1int
        } else {
            0int
        }
    }
}

fn out_degree(edges: &Vec<EdgeRecord>, id: &String) -> (r: usize)
    ensures
        r == spec_out_degree(edges@, id@),
{
    let mut acc: usize = 0;
    let mut j: usize = 0;
    proof {
        assert(edges@.take(0).len() == 0);
    }
    while j < edges.len()
        invariant
            0 <= j <= edges.len(),
            acc <= j,
            acc == spec_out_degree(edges@.take(j as int), id@),
        decreases edges.len() - j,
    {
        proof {
            assert(edges@.take(j as int + 1).last() == edges@[j as int]);
            assert(edges@.take(j as int + 1).drop_last() =~= edges@.take(j as int));
        }
        if edges[j].source_id.eq(id) {
            acc += 1;
        }
        j += 1;
    }
    proof {
        assert(edges@.take(edges.len() as int) =~= edges@);
    }
    acc
}

fn in_degree(edges: &Vec<EdgeRecord>, id: &String) -> (r: usize)
    ensures
        r == spec_in_degree(edges@, id@),
{
    let mut acc: usize = 0;
    let mut j: usize = 0;
    proof {
        assert(edges@.take(0).len() == 0);
    }
    while j < edges.len()
        invariant
            0 <= j <= edges.len(),
            acc <= j,
            acc == spec_in_degree(edges@.take(j as int), id@),
        decreases edges.len() - j,
    {
        proof {
            assert(edges@.take(j as int + 1).last() == edges@[j as int]);
            assert(edges@.take(j as int + 1).drop_last() =~= edges@.take(j as int));
        }
        if edges[j].target_id.eq(id) {
            acc += 1;
        }
        j += 1;
    }
    proof {
        assert(edges@.take(edges.len() as int) =~= edges@);
    }
    acc
}

#[derive(Debug)]
pub struct NodeGetOutput {
    pub node: NodePayload,
    pub out_degree: usize,
    pub in_degree: usize,
    pub confidence: ConfidenceBlock,
}

/// Exact identifier lookup: the first node under the identifier with its
/// in and out degree; not-found if and only if no node has the identifier.
pub fn tool_node_get(index: &CapsuleIndex, node_id: &String) -> (r: Result<
    NodeGetOutput,
    ToolError,
>)
    ensures
        match r {
            Ok(out) => {
                &&& exists|i: int|
                    0 <= i < index.nodes.len() && (#[trigger] index.nodes[i].id@) == node_id@
                        && spec_node_payload(out.node, index.nodes[i])
                &&& out.out_degree == spec_out_degree(index.edges@, node_id@)
                &&& out.in_degree == spec_in_degree(index.edges@, node_id@)
                &&& out.confidence.score_micro == 990000
            },
            Err(e) => e.kind == ToolErrorKind::NotFound && forall|i: int|
                0 <= i < index.nodes.len() ==> (#[trigger] index.nodes[i].id@) != node_id@,
        },
{
    let i = match find_node_index(&index.nodes, node_id) {
        Some(i) => i,
        None => {
            return Err(ToolError::not_found(String::from_str("nodeId not found")));
        },
    };
    let node = node_payload(&index.nodes[i]);
    let out_deg = out_degree(&index.edges, node_id);
    let in_deg = in_degree(&index.edges, node_id);
    let mut factors: Vec<String> = Vec::new();
    factors.push(String::from_str("exact_id_match"));
    let confidence = confidence_block(990000, factors, Vec::new());
    proof {
        assert(index.nodes[i as int].id@ == node_id@);
    }
    Ok(NodeGetOutput { node, out_degree: out_deg, in_degree: in_deg, confidence })
}

#[derive(Debug)]
pub struct EdgeGetOutput {
    pub edge: EdgePayload,
    pub source: Option<NodePayload>,
    pub target: Option<NodePayload>,
    pub confidence: ConfidenceBlock,
}

/// Exact edge lookup, resolving the endpoint nodes when present;
/// not-found if and only if no edge has the identifier.
pub fn tool_edge_get(index: &CapsuleIndex, edge_id: &String) -> (r: Result<
    EdgeGetOutput,
    ToolError,
>)
    ensures
        match r {
            Ok(out) => {
                &&& exists|i: int|
                    0 <= i < index.edges.len() && (#[trigger] index.edges[i].id@) == edge_id@
                        && spec_edge_payload(out.edge, index.edges[i])
                &&& (out.source is Some ==> exists|k: int|
                    0 <= k < index.nodes.len() && (#[trigger] index.nodes[k].id@)
                        == out.edge.source_id@ && spec_node_payload(
                        out.source.unwrap(),
                        index.nodes[k],
                    ))
                &&& (out.target is Some ==> exists|k: int|
                    0 <= k < index.nodes.len() && (#[trigger] index.nodes[k].id@)
                        == out.edge.target_id@ && spec_node_payload(
                        out.target.unwrap(),
                        index.nodes[k],
                    ))
                &&& (spec_node_known(index.nodes@, out.edge.source_id@) ==> out.source is Some)
                &&& (spec_node_known(index.nodes@, out.edge.target_id@) ==> out.target is Some)
            },
            Err(e) => e.kind == ToolErrorKind::NotFound && forall|i: int|
                0 <= i < index.edges.len() ==> (#[trigger] index.edges[i].id@) != edge_id@,
        },
{
    let i = match find_edge_index(&index.edges, edge_id) {
        Some(i) => i,
        None => {
            return Err(ToolError::not_found(String::from_str("edgeId not found")));
        },
    };
    let edge = edge_payload(&index.edges[i]);
    let source = match find_node_index(&index.nodes, &edge.source_id) {
        Some(k) => Some(node_payload(&index.nodes[k])),
        None => None,
    };
    let target = match find_node_index(&index.nodes, &edge.target_id) {
        Some(k) => Some(node_payload(&index.nodes[k])),
        None => None,
    };
    let mut factors: Vec<String> = Vec::new();
    factors.push(String::from_str("exact_id_match"));
    factors.push(String::from_str("graph_edge_lookup"));
    let confidence = confidence_block(980000, factors, Vec::new());
    Ok(EdgeGetOutput { edge, source, target, confidence })
}


/// Match score of a normalized symbol against a normalized query that it
/// contains: one whole point on equality, 0.92 on a prefix match, 0.78 on
/// a substring match.
pub open spec fn spec_symbol_score(sym: Seq<char>, q: Seq<char>) -> int {
    if sym == q {
        1000000
    } else if spec_starts_with(sym, q) {
        920000
    } else {
        780000
    }
}

/// Tiebreak key of a symbol row.
pub open spec fn spec_symbol_key(norm: Seq<char>, node_id: Seq<char>) -> Seq<char> {
    norm + "::"@ + node_id
}

#[derive(Debug)]
pub struct SymbolItem {
    pub symbol: String,
    pub symbol_norm: String,
    pub node_id: String,
    pub file_path: String,
    pub node_label: String,
    pub node_uri: String,
    pub score_micro: u64,
}

impl Clone for SymbolItem {
    fn clone(&self) -> (r: Self)
        ensures
            r == *self,
    {
        SymbolItem {
            symbol: self.symbol.clone(),
            symbol_norm: self.symbol_norm.clone(),
            node_id: self.node_id.clone(),
            file_path: self.file_path.clone(),
            node_label: self.node_label.clone(),
            node_uri: self.node_uri.clone(),
            score_micro: self.score_micro,
        }
    }
}

/// The item reflects a symbol record that contains the query, with the
/// exact match score.
pub open spec fn spec_symbol_item_matches(
    item: SymbolItem,
    recs: Seq<SymbolRecord>,
    q: Seq<char>,
) -> bool {
    exists|j: int|
        {
            &&& 0 <= j < recs.len()
            &&& item.symbol@ == (#[trigger] recs[j].symbol@)
            &&& item.symbol_norm@ == recs[j].symbol_norm@
            &&& item.node_id@ == recs[j].node_id@
            &&& item.file_path@ == recs[j].file_path@
            &&& item.node_label@ == recs[j].node_label@
            &&& spec_contains_seq(recs[j].symbol_norm@, q)
            &&& item.score_micro == spec_symbol_score(recs[j].symbol_norm@, q)
        }
}

pub open spec fn spec_symbol_listed(items: Seq<SymbolItem>, norm: Seq<char>, id: Seq<char>) -> bool {
    exists|k: int|
        0 <= k < items.len() && (#[trigger] items[k].symbol_norm@) == norm && items[k].node_id@
            == id
}

#[derive(Debug)]
pub struct SymbolLookupOutput {
    pub items: Vec<SymbolItem>,
    pub next_cursor: Option<String>,
    pub truncated: bool,
    pub confidence: ConfidenceBlock,
}

/// Symbol lookup: substring match of the normalized query against the
/// normalized symbols, scored one whole point for equality, 0.92 for a
/// prefix and 0.78 for any other substring match, ranked score descending
/// then key ascending, paginated.
#[verifier::rlimit(60)]
pub fn tool_symbol_lookup(
    index: &CapsuleIndex,
    query: &String,
    limit: Option<u64>,
    cursor: Option<(u64, String)>,
) -> (r: Result<SymbolLookupOutput, ToolError>)
    ensures
        match r {
            Ok(out) => {
                &&& spec_normalized(query@).len() > 0
                &&& out.items.len() <= (match limit {
                    Some(v) => if v < 1 {
                        1int
                    } else if v > 100 {
                        100int
                    } else {
                        v as int
                    },
                    None => 20,
                })
                &&& (out.truncated ==> out.items.len() == (match limit {
                    Some(v) => if v < 1 {
                        1int
                    } else if v > 100 {
                        100int
                    } else {
                        v as int
                    },
                    None => 20,
                }))
                &&& (out.next_cursor is Some <==> out.truncated)
                &&& forall|k: int|
                    0 <= k < out.items.len() ==> spec_symbol_item_matches(
                        #[trigger] out.items[k],
                        index.symbols@,
                        spec_normalized(query@),
                    )
                &&& forall|i: int, j: int|
                    0 <= i <= j < out.items.len() ==> (#[trigger] out.items[i]).score_micro > (
                    #[trigger] out.items[j]).score_micro || (out.items[i].score_micro
                        == out.items[j].score_micro && spec_lex_le(
                        spec_symbol_key(out.items[i].symbol_norm@, out.items[i].node_id@),
                        spec_symbol_key(out.items[j].symbol_norm@, out.items[j].node_id@),
                    ))
                &&& (cursor is None && !out.truncated ==> forall|j: int|
                    0 <= j < index.symbols.len() && spec_contains_seq(
                        (#[trigger] index.symbols[j].symbol_norm@),
                        spec_normalized(query@),
                    ) ==> spec_symbol_listed(
                        out.items@,
                        index.symbols[j].symbol_norm@,
                        index.symbols[j].node_id@,
                    ))
            },
            Err(e) => e.kind == ToolErrorKind::InvalidArgument && spec_normalized(query@).len()
                == 0,
        },
{
    let norm = normalize_text(query.as_str());
    if norm.as_str().unicode_len() == 0 {
        return Err(
            ToolError::invalid_argument(
                String::from_str("query cannot be empty after normalization"),
            ),
        );
    }
    let mut rows: Vec<SortEntry> = Vec::new();
    let mut payload: Vec<SymbolItem> = Vec::new();
    let mut j: usize = 0;
    while j < index.symbols.len()
        invariant
            0 <= j <= index.symbols.len(),
            norm@ == spec_normalized(query@),
            rows.len() == payload.len(),
            forall|t: int|
                0 <= t < rows.len() ==> {
                    &&& (#[trigger] rows[t]).idx == t
                    &&& rows[t].num <= SCORE_ONE
                    &&& rows[t].num == SCORE_ONE - payload[t].score_micro
                    &&& rows[t].text@ == spec_symbol_key(
                        payload[t].symbol_norm@,
                        payload[t].node_id@,
                    )
                },
            forall|t: int|
                0 <= t < payload.len() ==> spec_symbol_item_matches(
                    #[trigger] payload[t],
                    index.symbols@,
                    norm@,
                ),
            forall|t: int|
                0 <= t < j && spec_contains_seq(
                    (#[trigger] index.symbols[t].symbol_norm@),
                    norm@,
                ) ==> spec_symbol_listed(
                    payload@,
                    index.symbols[t].symbol_norm@,
                    index.symbols[t].node_id@,
                ),
        decreases index.symbols.len() - j,
    {
        let sym = &index.symbols[j];
        proof {
            assert(*sym == index.symbols[j as int]);
        }
        if str_contains(sym.symbol_norm.as_str(), norm.as_str()) {
            let score: u64 = if sym.symbol_norm.eq(&norm) {
                1000000
            } else if str_starts_with(sym.symbol_norm.as_str(), norm.as_str()) {
                920000
            } else {
                780000
            };
            let node_uri: String = match find_node_index(&index.nodes, &sym.node_id) {
                Some(k) => index.nodes[k].uri.clone(),
                None => String::new(),
            };
            let mut key = sym.symbol_norm.clone();
            key.append("::");
            key.append(sym.node_id.as_str());
            proof {
                assert(key@ =~= spec_symbol_key(sym.symbol_norm@, sym.node_id@));
            }
            let ghost payload0 = payload@;
            let item = SymbolItem {
                symbol: sym.symbol.clone(),
                symbol_norm: sym.symbol_norm.clone(),
                node_id: sym.node_id.clone(),
                file_path: sym.file_path.clone(),
                node_label: sym.node_label.clone(),
                node_uri,
                score_micro: score,
            };
            rows.push(SortEntry { num: SCORE_ONE - score, text: key, idx: payload.len() });
            payload.push(item);
            proof {
                let n = payload.len() - 1;
                assert(forall|t: int| 0 <= t < n ==> (#[trigger] payload[t]) == payload0[t]);
                assert(payload[n as int].symbol@ == index.symbols[j as int].symbol@);
                assert(payload[n as int].symbol_norm@ == index.symbols[j as int].symbol_norm@);
                assert(payload[n as int].node_id@ == index.symbols[j as int].node_id@);
                assert(payload[n as int].file_path@ == index.symbols[j as int].file_path@);
                assert(payload[n as int].node_label@ == index.symbols[j as int].node_label@);
                assert(spec_contains_seq(index.symbols[j as int].symbol_norm@, norm@));
                assert(payload[n as int].score_micro == spec_symbol_score(
                    index.symbols[j as int].symbol_norm@,
                    norm@,
                ));
                assert(spec_symbol_item_matches(payload[n as int], index.symbols@, norm@));
                assert(spec_symbol_listed(
                    payload@,
                    index.symbols[j as int].symbol_norm@,
                    index.symbols[j as int].node_id@,
                ));
                assert forall|x: Seq<char>, y: Seq<char>| spec_symbol_listed(payload0, x, y)
                    implies spec_symbol_listed(payload@, x, y) by {
                    let k = choose|k: int|
                        0 <= k < payload0.len() && (#[trigger] payload0[k].symbol_norm@) == x
                            && payload0[k].node_id@ == y;
                    assert(payload[k].symbol_norm@ == x && payload[k].node_id@ == y);
                }
            }
        }
        j += 1;
    }
    let lim = parse_limit(limit, 20, 100);
    let ghost rows0 = rows@;
    let had_cursor = cursor.is_some();
    let page = paginate_ranked(rows, lim, cursor);
    proof {
        crate::order::lemma_permutation_contains(rows0, page.all_sorted@);
        assert forall|t: int| 0 <= t < page.entries.len() implies {
            &&& (#[trigger] page.entries[t]).idx < payload.len()
            &&& page.entries[t].num <= SCORE_ONE
            &&& page.entries[t].num == SCORE_ONE - payload[page.entries[t].idx as int].score_micro
            &&& page.entries[t].text@ == spec_symbol_key(
                payload[page.entries[t].idx as int].symbol_norm@,
                payload[page.entries[t].idx as int].node_id@,
            )
        } by {
            let ss = page.all_sorted@;
            let start = page.start@;
            assert(page.entries@[t] == ss[start + t]);
            assert(ss.contains(ss[start + t]));
            let j0 = choose|j0: int| 0 <= j0 < rows0.len() && rows0[j0] == ss[start + t];
            assert(rows0[j0].idx == j0);
        }
    }
    let mut items: Vec<SymbolItem> = Vec::new();
    let mut k: usize = 0;
    while k < page.entries.len()
        invariant
            0 <= k <= page.entries.len(),
            items.len() == k,
            rows0.len() == payload.len(),
            forall|t: int|
                0 <= t < page.entries.len() ==> {
                    &&& (#[trigger] page.entries[t]).idx < payload.len()
                    &&& page.entries[t].num <= SCORE_ONE
                    &&& page.entries[t].num == SCORE_ONE - payload[page.entries[t].idx as int].score_micro
                    &&& page.entries[t].text@ == spec_symbol_key(
                        payload[page.entries[t].idx as int].symbol_norm@,
                        payload[page.entries[t].idx as int].node_id@,
                    )
                },
            forall|t: int|
                0 <= t < k ==> (#[trigger] items[t]) == payload[page.entries[t].idx as int],
        decreases page.entries.len() - k,
    {
        items.push(payload[page.entries[k].idx].clone());
        k += 1;
    }
    proof {
        let ss = page.all_sorted@;
        let start = page.start@;
        assert forall|i: int, j2: int| 0 <= i <= j2 < items.len() implies (
        #[trigger] items[i]).score_micro > (#[trigger] items[j2]).score_micro || (
        items[i].score_micro == items[j2].score_micro && spec_lex_le(
            spec_symbol_key(items[i].symbol_norm@, items[i].node_id@),
            spec_symbol_key(items[j2].symbol_norm@, items[j2].node_id@),
        )) by {
            assert(page.entries@[i] == ss[start + i]);
            assert(page.entries@[j2] == ss[start + j2]);
            assert(spec_entry_le(ss[start + i], ss[start + j2]));
            if page.entries[i].text@ == page.entries[j2].text@ {
                crate::order::lemma_lex_refl(page.entries[i].text@);
            }
        }
        if page.truncated {
            assert(page.entries.len() == lim);
        }
        if !had_cursor && !page.truncated {
            assert(page.start@ == 0);
            assert(page.entries@ =~= page.all_sorted@);
            assert forall|j2: int|
                0 <= j2 < index.symbols.len() && spec_contains_seq(
                    (#[trigger] index.symbols[j2].symbol_norm@),
                    spec_normalized(query@),
                ) implies spec_symbol_listed(
                items@,
                index.symbols[j2].symbol_norm@,
                index.symbols[j2].node_id@,
            ) by {
                let t = choose|t: int|
                    0 <= t < payload@.len() && (#[trigger] payload@[t].symbol_norm@)
                        == index.symbols[j2].symbol_norm@ && payload@[t].node_id@
                        == index.symbols[j2].node_id@;
                assert(rows0[t].idx == t);
                assert(page.all_sorted@.contains(rows0[t]));
                let p = choose|p: int|
                    0 <= p < page.all_sorted@.len() && page.all_sorted@[p] == rows0[t];
                assert(page.entries@[p] == page.all_sorted@[p]);
                assert(items[p] == payload[page.entries[p].idx as int]);
                assert(items[p] == payload[t as int]);
            }
        }
    }
    let score_conf: u64 = if items.len() == 0 {
        200000
    } else {
        920000
    };
    let mut factors: Vec<String> = Vec::new();
    factors.push(String::from_str("symbol_norm_match"));
    factors.push(String::from_str("deterministic_sort"));
    let confidence = confidence_block(score_conf, factors, Vec::new());
    Ok(
        SymbolLookupOutput {
            items,
            next_cursor: page.next_cursor,
            truncated: page.truncated,
            confidence,
        },
    )
}


/// Words joined by single spaces.
pub open spec fn spec_joined(terms: Seq<String>) -> Seq<char>
    decreases terms.len(),
{
    if terms.len() == 0 {
        Seq::empty()
    } else if terms.len() == 1 {
        terms[0]@
    } else {
        spec_joined(terms.drop_last()) + seq![' '] + terms.last()@
    }
}

/// Splits a normalized text (single spaces, no leading or trailing space)
/// into its words.
pub fn split_words(s: &str) -> (r: Vec<String>)
    ensures
        spec_joined(r@) == s@ || (s@.len() == 0 && r@.len() == 0),
        s@.len() == 0 ==> r@.len() == 0,
{
    let n = s.unicode_len();
    let mut out: Vec<String> = Vec::new();
    if n == 0 {
        return out;
    }
    let mut start: usize = 0;
    let mut i: usize = 0;
    while i < n
        invariant
            n == s@.len(),
            n > 0,
            0 <= start <= i <= n,
            out@.len() == 0 ==> start == 0,
            out@.len() > 0 ==> start >= 1 && spec_joined(out@) + seq![' '] =~= s@.subrange(
                0,
                start as int,
            ),
        decreases n - i,
    {
        if s.get_char(i) == ' ' {
            let w = s.substring_char(start, i);
            let ghost out0 = out@;
            out.push(String::from_str(w));
            proof {
                if out0.len() == 0 {
                    assert(out@.len() == 1);
                    assert(spec_joined(out@) == out@[0]@);
                    assert(out@[0]@ == s@.subrange(0, i as int));
                    assert(spec_joined(out@) + seq![' '] =~= s@.subrange(0, i as int + 1));
                } else {
                    assert(out@.drop_last() =~= out0);
                    assert(spec_joined(out@) == spec_joined(out0) + seq![' ']
                        + s@.subrange(start as int, i as int));
                    assert(spec_joined(out@) + seq![' '] =~= s@.subrange(0, i as int + 1));
                }
            }
            start = i + 1;
        }
        i += 1;
    }
    let w = s.substring_char(start, n);
    let ghost out0 = out@;
    out.push(String::from_str(w));
    proof {
        if out0.len() == 0 {
            assert(out@.len() == 1);
            assert(spec_joined(out@) == out@[0]@);
            assert(spec_joined(out@) =~= s@);
        } else {
            assert(out@.drop_last() =~= out0);
            assert(spec_joined(out@) == spec_joined(out0) + seq![' ']
                + s@.subrange(start as int, n as int));
            assert(spec_joined(out@) =~= s@);
        }
    }
    out
}

/// Number of query terms contained in the normalized text.
pub open spec fn spec_term_match_count(ntext: Seq<char>, terms: Seq<String>) -> int
    decreases terms.len(),
{
    if terms.len() == 0 {
        0
    } else {
        spec_term_match_count(ntext, terms.drop_last()) + if spec_contains_seq(
            ntext,
            terms.last()@,
        ) {
            1int
        } else {
            0int
        }
    }
}

/// Lexical relevance in millionths: matching terms over total terms; zero
/// when the normalized text is empty or nothing matches.
pub open spec fn spec_lexical_score(ntext: Seq<char>, terms: Seq<String>) -> int {
    if terms.len() == 0 || ntext.len() == 0 {
        0
    } else {
        spec_term_match_count(ntext, terms) * (SCORE_ONE as int) / (terms.len() as int)
    }
}

/// Lexical score of a text against the normalized query terms.
pub fn lexical_score(text: &str, terms: &Vec<String>) -> (r: u64)
    requires
        terms.len() >= 1,
    ensures
        r == spec_lexical_score(spec_normalized(text@), terms@),
        r <= SCORE_ONE,
{
    let ntext = normalize_text(text);
    if ntext.as_str().unicode_len() == 0 {
        return 0;
    }
    let mut matches: usize = 0;
    let mut t: usize = 0;
    proof {
        assert(terms@.take(0).len() == 0);
    }
    while t < terms.len()
        invariant
            0 <= t <= terms.len(),
            matches <= t,
            ntext@ == spec_normalized(text@),
            matches == spec_term_match_count(ntext@, terms@.take(t as int)),
        decreases terms.len() - t,
    {
        proof {
            assert(terms@.take(t as int + 1).last() == terms@[t as int]);
            assert(terms@.take(t as int + 1).drop_last() =~= terms@.take(t as int));
        }
        if str_contains(ntext.as_str(), terms[t].as_str()) {
            matches += 1;
        }
        t += 1;
    }
    proof {
        assert(terms@.take(terms.len() as int) =~= terms@);
    }
    let total = terms.len();
    proof {
        assert((matches as u128) * (SCORE_ONE as u128) <= (u64::MAX as u128) * (
        SCORE_ONE as u128)) by (nonlinear_arith)
            requires
                0 <= matches,
                matches as int <= u64::MAX,
                SCORE_ONE == 1000000,
        ;
        assert((matches as int) * (SCORE_ONE as int) / (total as int) <= SCORE_ONE)
            by (nonlinear_arith)
            requires
                0 <= matches as int <= total as int,
                total as int >= 1,
                SCORE_ONE == 1000000,
        ;
    }
    let score128: u128 = (matches as u128) * (SCORE_ONE as u128) / (total as u128);
    let score = score128 as u64;
    proof {
        assert(score128 == (matches as int) * (SCORE_ONE as int) / (total as int));
    }
    score
}

#[derive(Debug)]
pub struct CallItem {
    pub edge: EdgePayload,
    pub node: Option<NodePayload>,
    pub score_micro: u64,
}

impl Clone for CallItem {
    fn clone(&self) -> (r: Self)
        ensures
            r == *self,
    {
        CallItem {
            edge: self.edge.clone(),
            node: match &self.node {
                Some(n) => Some(n.clone()),
                None => None,
            },
            score_micro: self.score_micro,
        }
    }
}

/// An item stands for a "CALLS" edge touching the node on the requested
/// side, scored `0.70 + 0.30 * confidence`.
pub open spec fn spec_call_item_matches(
    item: CallItem,
    edges: Seq<EdgeRecord>,
    node_id: Seq<char>,
    incoming: bool,
) -> bool {
    exists|j: int|
        {
            &&& 0 <= j < edges.len()
            &&& (#[trigger] edges[j].relation_type@) == "CALLS"@
            &&& (if incoming {
                edges[j].target_id@ == node_id
            } else {
                edges[j].source_id@ == node_id
            })
            &&& spec_edge_payload(item.edge, edges[j])
            &&& item.score_micro == 700000 + 300 * (edges[j].confidence_milli as int)
        }
}

/// An item for this edge identifier is present.
pub open spec fn spec_call_listed(items: Seq<CallItem>, edge_id: Seq<char>) -> bool {
    exists|k: int| 0 <= k < items.len() && (#[trigger] items[k].edge.id@) == edge_id
}

/// An edge contributes to a callers or callees listing: a "CALLS" edge
/// touching the node on the requested side with an in-range confidence.
pub open spec fn spec_call_edge_matches(
    e: EdgeRecord,
    node_id: Seq<char>,
    incoming: bool,
) -> bool {
    &&& e.relation_type@ == "CALLS"@
    &&& (if incoming {
        e.target_id@ == node_id
    } else {
        e.source_id@ == node_id
    })
    &&& e.confidence_milli <= 1000
}

#[derive(Debug)]
pub struct CallListOutput {
    pub items: Vec<CallItem>,
    pub next_cursor: Option<String>,
    pub truncated: bool,
    pub confidence: ConfidenceBlock,
}

fn callers_or_callees(
    index: &CapsuleIndex,
    node_id: &String,
    limit: Option<u64>,
    cursor: Option<(u64, String)>,
    incoming: bool,
) -> (r: Result<CallListOutput, ToolError>)
    ensures
        r is Ok <==> spec_node_known(index.nodes@, node_id@),
        match r {
            Ok(out) => {
                &&& forall|k: int|
                    0 <= k < out.items.len() ==> spec_call_item_matches(
                        #[trigger] out.items[k],
                        index.edges@,
                        node_id@,
                        incoming,
                    )
                &&& forall|i: int, j: int|
                    0 <= i <= j < out.items.len() ==> (#[trigger] out.items[i]).score_micro >= (
                    #[trigger] out.items[j]).score_micro
                &&& out.items.len() <= (match limit {
                    Some(v) => if v < 1 {
                        1int
                    } else if v > 150 {
                        150int
                    } else {
                        v as int
                    },
                    None => 25,
                })
                &&& (out.truncated ==> out.items.len() == (match limit {
                    Some(v) => if v < 1 {
                        1int
                    } else if v > 150 {
                        150int
                    } else {
                        v as int
                    },
                    None => 25,
                }))
                &&& (out.next_cursor is Some <==> out.truncated)
                &&& (cursor is None && !out.truncated ==> forall|j: int|
                    0 <= j < index.edges.len() && spec_call_edge_matches(
                        (#[trigger] index.edges[j]),
                        node_id@,
                        incoming,
                    ) ==> spec_call_listed(out.items@, index.edges[j].id@))
            },
            Err(e) => e.kind == ToolErrorKind::NotFound && forall|i: int|
                0 <= i < index.nodes.len() ==> (#[trigger] index.nodes[i].id@) != node_id@,
        },
{
    if find_node_index(&index.nodes, node_id).is_none() {
        return Err(ToolError::not_found(String::from_str("nodeId not found")));
    }
    let mut rows: Vec<SortEntry> = Vec::new();
    let mut payload: Vec<CallItem> = Vec::new();
    let mut j: usize = 0;
    while j < index.edges.len()
        invariant
            0 <= j <= index.edges.len(),
            rows.len() == payload.len(),
            forall|t: int|
                0 <= t < rows.len() ==> {
                    &&& (#[trigger] rows[t]).idx == t
                    &&& rows[t].num <= SCORE_ONE
                    &&& rows[t].num == SCORE_ONE - payload[t].score_micro
                },
            forall|t: int|
                0 <= t < payload.len() ==> spec_call_item_matches(
                    #[trigger] payload[t],
                    index.edges@,
                    node_id@,
                    incoming,
                ),
            forall|t: int|
                0 <= t < j && spec_call_edge_matches(
                    (#[trigger] index.edges[t]),
                    node_id@,
                    incoming,
                ) ==> spec_call_listed(payload@, index.edges[t].id@),
        decreases index.edges.len() - j,
    {
        let e = &index.edges[j];
        proof {
            assert(*e == index.edges[j as int]);
        }
        let touches = if incoming {
            e.target_id.eq(node_id)
        } else {
            e.source_id.eq(node_id)
        };
        if touches && str_eq_str(e.relation_type.as_str(), "CALLS") && e.confidence_milli
            <= 1000 {
            let score: u64 = 700000 + 300 * (e.confidence_milli as u64);
            let other_id = if incoming {
                e.source_id.clone()
            } else {
                e.target_id.clone()
            };
            let node = match find_node_index(&index.nodes, &other_id) {
                Some(k) => Some(node_payload(&index.nodes[k])),
                None => None,
            };
            let mut key = e.id.clone();
            key.append("::");
            key.append(other_id.as_str());
            let ghost payload0 = payload@;
            payload.push(CallItem { edge: edge_payload(e), node, score_micro: score });
            rows.push(SortEntry { num: SCORE_ONE - score, text: key, idx: payload.len() - 1 });
            proof {
                let n = payload.len() - 1;
                assert(forall|t: int| 0 <= t < n ==> (#[trigger] payload[t]) == payload0[t]);
                assert(spec_edge_payload(payload[n as int].edge, index.edges[j as int]));
                assert(spec_call_item_matches(
                    payload[n as int],
                    index.edges@,
                    node_id@,
                    incoming,
                ));
                assert(payload[n as int].edge.id@ == index.edges[j as int].id@);
                assert(spec_call_listed(payload@, index.edges[j as int].id@));
                assert forall|x: Seq<char>| spec_call_listed(payload0, x)
                    implies spec_call_listed(payload@, x) by {
                    let k = choose|k: int|
                        0 <= k < payload0.len() && (#[trigger] payload0[k].edge.id@) == x;
                    assert(payload[k].edge.id@ == x);
                }
            }
        }
        j += 1;
    }
    let lim = parse_limit(limit, 25, 150);
    let ghost rows0 = rows@;
    let had_cursor = cursor.is_some();
    let page = paginate_ranked(rows, lim, cursor);
    proof {
        crate::order::lemma_permutation_contains(rows0, page.all_sorted@);
        assert forall|t: int| 0 <= t < page.entries.len() implies {
            &&& (#[trigger] page.entries[t]).idx < payload.len()
            &&& page.entries[t].num <= SCORE_ONE
            &&& page.entries[t].num == SCORE_ONE - payload[page.entries[t].idx as int].score_micro
        } by {
            let ss = page.all_sorted@;
            let start = page.start@;
            assert(page.entries@[t] == ss[start + t]);
            assert(ss.contains(ss[start + t]));
            let j0 = choose|j0: int| 0 <= j0 < rows0.len() && rows0[j0] == ss[start + t];
            assert(rows0[j0].idx == j0);
        }
    }
    let mut items: Vec<CallItem> = Vec::new();
    let mut k: usize = 0;
    while k < page.entries.len()
        invariant
            0 <= k <= page.entries.len(),
            items.len() == k,
            forall|t: int|
                0 <= t < page.entries.len() ==> {
                    &&& (#[trigger] page.entries[t]).idx < payload.len()
                    &&& page.entries[t].num <= SCORE_ONE
                    &&& page.entries[t].num == SCORE_ONE - payload[page.entries[t].idx as int].score_micro
                },
            forall|t: int|
                0 <= t < k ==> (#[trigger] items[t]) == payload[page.entries[t].idx as int],
        decreases page.entries.len() - k,
    {
        items.push(payload[page.entries[k].idx].clone());
        k += 1;
    }
    proof {
        let ss = page.all_sorted@;
        let start = page.start@;
        assert forall|i: int, j2: int| 0 <= i <= j2 < items.len() implies (
        #[trigger] items[i]).score_micro >= (#[trigger] items[j2]).score_micro by {
            assert(page.entries@[i] == ss[start + i]);
            assert(page.entries@[j2] == ss[start + j2]);
            assert(spec_entry_le(ss[start + i], ss[start + j2]));
        }
        if page.truncated {
            assert(page.entries.len() == lim);
        }
        if !had_cursor && !page.truncated {
            assert(page.start@ == 0);
            assert(page.entries@ =~= page.all_sorted@);
            assert forall|j2: int|
                0 <= j2 < index.edges.len() && spec_call_edge_matches(
                    (#[trigger] index.edges[j2]),
                    node_id@,
                    incoming,
                ) implies spec_call_listed(items@, index.edges[j2].id@) by {
                let t = choose|t: int|
                    0 <= t < payload@.len() && (#[trigger] payload@[t].edge.id@)
                        == index.edges[j2].id@;
                assert(rows0[t].idx == t);
                assert(page.all_sorted@.contains(rows0[t]));
                let p = choose|p: int|
                    0 <= p < page.all_sorted@.len() && page.all_sorted@[p] == rows0[t];
                assert(page.entries@[p] == page.all_sorted@[p]);
                assert(items[p] == payload[page.entries[p].idx as int]);
                assert(items[p] == payload[t as int]);
            }
        }
    }
    let mut factors: Vec<String> = Vec::new();
    factors.push(String::from_str("graph_call_edges"));
    factors.push(String::from_str("edge_confidence"));
    let confidence = confidence_block(900000, factors, Vec::new());
    Ok(
        CallListOutput {
            items,
            next_cursor: page.next_cursor,
            truncated: page.truncated,
            confidence,
        },
    )
}

/// Incoming "CALLS" edges of a node, ranked by edge confidence; found if
/// and only if the node exists, and complete over the matching edges when
/// the listing is not paginated away.
pub fn tool_callers_of(
    index: &CapsuleIndex,
    node_id: &String,
    limit: Option<u64>,
    cursor: Option<(u64, String)>,
) -> (r: Result<CallListOutput, ToolError>)
    ensures
        r is Ok <==> spec_node_known(index.nodes@, node_id@),
        match r {
            Ok(out) => {
                &&& forall|k: int|
                    0 <= k < out.items.len() ==> spec_call_item_matches(
                        #[trigger] out.items[k],
                        index.edges@,
                        node_id@,
                        true,
                    )
                &&& forall|i: int, j: int|
                    0 <= i <= j < out.items.len() ==> (#[trigger] out.items[i]).score_micro >= (
                    #[trigger] out.items[j]).score_micro
                &&& (out.next_cursor is Some <==> out.truncated)
                &&& (cursor is None && !out.truncated ==> forall|j: int|
                    0 <= j < index.edges.len() && spec_call_edge_matches(
                        (#[trigger] index.edges[j]),
                        node_id@,
                        true,
                    ) ==> spec_call_listed(out.items@, index.edges[j].id@))
            },
            Err(e) => e.kind == ToolErrorKind::NotFound,
        },
{
    callers_or_callees(index, node_id, limit, cursor, true)
}

/// Outgoing "CALLS" edges of a node, ranked by edge confidence; found if
/// and only if the node exists, and complete over the matching edges when
/// the listing is not paginated away.
pub fn tool_callees_of(
    index: &CapsuleIndex,
    node_id: &String,
    limit: Option<u64>,
    cursor: Option<(u64, String)>,
) -> (r: Result<CallListOutput, ToolError>)
    ensures
        r is Ok <==> spec_node_known(index.nodes@, node_id@),
        match r {
            Ok(out) => {
                &&& forall|k: int|
                    0 <= k < out.items.len() ==> spec_call_item_matches(
                        #[trigger] out.items[k],
                        index.edges@,
                        node_id@,
                        false,
                    )
                &&& forall|i: int, j: int|
                    0 <= i <= j < out.items.len() ==> (#[trigger] out.items[i]).score_micro >= (
                    #[trigger] out.items[j]).score_micro
                &&& (out.next_cursor is Some <==> out.truncated)
                &&& (cursor is None && !out.truncated ==> forall|j: int|
                    0 <= j < index.edges.len() && spec_call_edge_matches(
                        (#[trigger] index.edges[j]),
                        node_id@,
                        false,
                    ) ==> spec_call_listed(out.items@, index.edges[j].id@))
            },
            Err(e) => e.kind == ToolErrorKind::NotFound,
        },
{
    callers_or_callees(index, node_id, limit, cursor, false)
}


#[derive(Debug)]
pub struct NeighborItem {
    pub edge: EdgePayload,
    pub neighbor: Option<NodePayload>,
    pub outgoing: bool,
    pub score_micro: u64,
}

impl Clone for NeighborItem {
    fn clone(&self) -> (r: Self)
        ensures
            r == *self,
    {
        NeighborItem {
            edge: self.edge.clone(),
            neighbor: match &self.neighbor {
                Some(n) => Some(n.clone()),
                None => None,
            },
            outgoing: self.outgoing,
            score_micro: self.score_micro,
        }
    }
}

/// The item stands for an edge incident to the node on an allowed side,
/// passing the relation-type filter, scored `0.70 + 0.30 * confidence`.
pub open spec fn spec_neighbor_item_matches(
    item: NeighborItem,
    edges: Seq<EdgeRecord>,
    node_id: Seq<char>,
    want_out: bool,
    want_in: bool,
    filter: Seq<String>,
) -> bool {
    exists|j: int|
        {
            &&& 0 <= j < edges.len()
            &&& spec_edge_payload(item.edge, #[trigger] edges[j])
            &&& ((want_out && edges[j].source_id@ == node_id) || (want_in && edges[j].target_id@
                == node_id))
            &&& (filter.len() > 0 ==> exists|t: int|
                0 <= t < filter.len() && (#[trigger] filter[t]@) == edges[j].relation_type@)
            &&& item.score_micro == 700000 + 300 * (edges[j].confidence_milli as int)
        }
}

/// A neighbor item for this edge identifier is present.
pub open spec fn spec_neighbor_listed(items: Seq<NeighborItem>, edge_id: Seq<char>) -> bool {
    exists|k: int| 0 <= k < items.len() && (#[trigger] items[k].edge.id@) == edge_id
}

/// An edge contributes to a neighborhood listing: it touches the node on
/// an allowed side, passes the relation-type filter and carries an
/// in-range confidence.
pub open spec fn spec_neighbor_edge_matches(
    e: EdgeRecord,
    node_id: Seq<char>,
    want_out: bool,
    want_in: bool,
    filter: Seq<String>,
) -> bool {
    &&& ((want_out && e.source_id@ == node_id) || (want_in && e.target_id@ == node_id))
    &&& (filter.len() > 0 ==> exists|t: int|
        0 <= t < filter.len() && (#[trigger] filter[t]@) == e.relation_type@)
    &&& e.confidence_milli <= 1000
}

#[derive(Debug)]
pub struct NeighborsOutput {
    pub items: Vec<NeighborItem>,
    pub next_cursor: Option<String>,
    pub truncated: bool,
    pub confidence: ConfidenceBlock,
}

/// Incident edges of a node with optional direction and relation-type
/// filters, ranked by edge confidence.
pub fn tool_neighbors_get(
    index: &CapsuleIndex,
    node_id: &String,
    want_out: bool,
    want_in: bool,
    relation_types: &Vec<String>,
    limit: Option<u64>,
    cursor: Option<(u64, String)>,
) -> (r: Result<NeighborsOutput, ToolError>)
    ensures
        r is Ok <==> spec_node_known(index.nodes@, node_id@),
        match r {
            Ok(out) => {
                &&& forall|k: int|
                    0 <= k < out.items.len() ==> spec_neighbor_item_matches(
                        #[trigger] out.items[k],
                        index.edges@,
                        node_id@,
                        want_out,
                        want_in,
                        relation_types@,
                    )
                &&& forall|i: int, j: int|
                    0 <= i <= j < out.items.len() ==> (#[trigger] out.items[i]).score_micro >= (
                    #[trigger] out.items[j]).score_micro
                &&& (out.next_cursor is Some <==> out.truncated)
                &&& (out.truncated ==> out.items.len() == (match limit {
                    Some(v) => if v < 1 {
                        1int
                    } else if v > 150 {
                        150int
                    } else {
                        v as int
                    },
                    None => 25,
                }))
                &&& (cursor is None && !out.truncated ==> forall|j: int|
                    0 <= j < index.edges.len() && spec_neighbor_edge_matches(
                        (#[trigger] index.edges[j]),
                        node_id@,
                        want_out,
                        want_in,
                        relation_types@,
                    ) ==> spec_neighbor_listed(out.items@, index.edges[j].id@))
            },
            Err(e) => e.kind == ToolErrorKind::NotFound && forall|i: int|
                0 <= i < index.nodes.len() ==> (#[trigger] index.nodes[i].id@) != node_id@,
        },
{
    if find_node_index(&index.nodes, node_id).is_none() {
        return Err(ToolError::not_found(String::from_str("nodeId not found")));
    }
    let mut rows: Vec<SortEntry> = Vec::new();
    let mut payload: Vec<NeighborItem> = Vec::new();
    let mut j: usize = 0;
    while j < index.edges.len()
        invariant
            0 <= j <= index.edges.len(),
            rows.len() == payload.len(),
            forall|t: int|
                0 <= t < rows.len() ==> {
                    &&& (#[trigger] rows[t]).idx == t
                    &&& rows[t].num <= SCORE_ONE
                    &&& rows[t].num == SCORE_ONE - payload[t].score_micro
                },
            forall|t: int|
                0 <= t < payload.len() ==> spec_neighbor_item_matches(
                    #[trigger] payload[t],
                    index.edges@,
                    node_id@,
                    want_out,
                    want_in,
                    relation_types@,
                ),
            forall|t: int|
                0 <= t < j && spec_neighbor_edge_matches(
                    (#[trigger] index.edges[t]),
                    node_id@,
                    want_out,
                    want_in,
                    relation_types@,
                ) ==> spec_neighbor_listed(payload@, index.edges[t].id@),
        decreases index.edges.len() - j,
    {
        let e = &index.edges[j];
        proof {
            assert(*e == index.edges[j as int]);
        }
        let is_out = e.source_id.eq(node_id);
        let is_in = e.target_id.eq(node_id);
        let side_ok = (want_out && is_out) || (want_in && is_in);
        if side_ok {
            let mut type_ok = relation_types.len() == 0;
            let mut t: usize = 0;
            while t < relation_types.len()
                invariant
                    0 <= t <= relation_types.len(),
                    type_ok == (relation_types.len() == 0 || exists|x: int|
                        0 <= x < t && (#[trigger] relation_types[x]@) == index.edges[j as int].relation_type@),
                    0 <= j < index.edges.len(),
                decreases relation_types.len() - t,
            {
                if relation_types[t].eq(&index.edges[j].relation_type) {
                    type_ok = true;
                    t = relation_types.len();
                } else {
                    t += 1;
                }
            }
            if type_ok && e.confidence_milli <= 1000 {
                let score: u64 = 700000 + 300 * (e.confidence_milli as u64);
                let neighbor_id = if is_out && want_out {
                    e.target_id.clone()
                } else {
                    e.source_id.clone()
                };
                let neighbor = match find_node_index(&index.nodes, &neighbor_id) {
                    Some(k) => Some(node_payload(&index.nodes[k])),
                    None => None,
                };
                let mut key = e.id.clone();
                key.append("::");
                key.append(neighbor_id.as_str());
                let ghost payload0 = payload@;
                payload.push(
                    NeighborItem {
                        edge: edge_payload(e),
                        neighbor,
                        outgoing: is_out && want_out,
                        score_micro: score,
                    },
                );
                rows.push(
                    SortEntry { num: SCORE_ONE - score, text: key, idx: payload.len() - 1 },
                );
                proof {
                    let n = payload.len() - 1;
                    assert(forall|t2: int|
                        0 <= t2 < n ==> (#[trigger] payload[t2]) == payload0[t2]);
                    assert(spec_edge_payload(payload[n as int].edge, index.edges[j as int]));
                    assert(spec_neighbor_item_matches(
                        payload[n as int],
                        index.edges@,
                        node_id@,
                        want_out,
                        want_in,
                        relation_types@,
                    ));
                    assert(payload[n as int].edge.id@ == index.edges[j as int].id@);
                    assert(spec_neighbor_listed(payload@, index.edges[j as int].id@));
                    assert forall|x: Seq<char>| spec_neighbor_listed(payload0, x)
                        implies spec_neighbor_listed(payload@, x) by {
                        let k = choose|k: int|
                            0 <= k < payload0.len() && (#[trigger] payload0[k].edge.id@) == x;
                        assert(payload[k].edge.id@ == x);
                    }
                }
            }
        }
        j += 1;
    }
    let lim = parse_limit(limit, 25, 150);
    let ghost rows0 = rows@;
    let had_cursor = cursor.is_some();
    let page = paginate_ranked(rows, lim, cursor);
    proof {
        crate::order::lemma_permutation_contains(rows0, page.all_sorted@);
        assert forall|t: int| 0 <= t < page.entries.len() implies {
            &&& (#[trigger] page.entries[t]).idx < payload.len()
            &&& page.entries[t].num <= SCORE_ONE
            &&& page.entries[t].num == SCORE_ONE - payload[page.entries[t].idx as int].score_micro
        } by {
            let ss = page.all_sorted@;
            let start = page.start@;
            assert(page.entries@[t] == ss[start + t]);
            assert(ss.contains(ss[start + t]));
            let j0 = choose|j0: int| 0 <= j0 < rows0.len() && rows0[j0] == ss[start + t];
            assert(rows0[j0].idx == j0);
        }
    }
    let mut items: Vec<NeighborItem> = Vec::new();
    let mut k: usize = 0;
    while k < page.entries.len()
        invariant
            0 <= k <= page.entries.len(),
            items.len() == k,
            forall|t: int|
                0 <= t < page.entries.len() ==> {
                    &&& (#[trigger] page.entries[t]).idx < payload.len()
                    &&& page.entries[t].num <= SCORE_ONE
                    &&& page.entries[t].num == SCORE_ONE - payload[page.entries[t].idx as int].score_micro
                },
            forall|t: int|
                0 <= t < k ==> (#[trigger] items[t]) == payload[page.entries[t].idx as int],
        decreases page.entries.len() - k,
    {
        items.push(payload[page.entries[k].idx].clone());
        k += 1;
    }
    proof {
        let ss = page.all_sorted@;
        let start = page.start@;
        assert forall|i: int, j2: int| 0 <= i <= j2 < items.len() implies (
        #[trigger] items[i]).score_micro >= (#[trigger] items[j2]).score_micro by {
            assert(page.entries@[i] == ss[start + i]);
            assert(page.entries@[j2] == ss[start + j2]);
            assert(spec_entry_le(ss[start + i], ss[start + j2]));
        }
        if page.truncated {
            assert(page.entries.len() == lim);
        }
        if !had_cursor && !page.truncated {
            assert(page.start@ == 0);
            assert(page.entries@ =~= page.all_sorted@);
            assert forall|j2: int|
                0 <= j2 < index.edges.len() && spec_neighbor_edge_matches(
                    (#[trigger] index.edges[j2]),
                    node_id@,
                    want_out,
                    want_in,
                    relation_types@,
                ) implies spec_neighbor_listed(items@, index.edges[j2].id@) by {
                let t = choose|t: int|
                    0 <= t < payload@.len() && (#[trigger] payload@[t].edge.id@)
                        == index.edges[j2].id@;
                assert(rows0[t].idx == t);
                assert(page.all_sorted@.contains(rows0[t]));
                let p = choose|p: int|
                    0 <= p < page.all_sorted@.len() && page.all_sorted@[p] == rows0[t];
                assert(page.entries@[p] == page.all_sorted@[p]);
                assert(items[p] == payload[page.entries[p].idx as int]);
                assert(items[p] == payload[t as int]);
            }
        }
    }
    let mut factors: Vec<String> = Vec::new();
    factors.push(String::from_str("graph_adjacency"));
    factors.push(String::from_str("edge_confidence"));
    let confidence = confidence_block(900000, factors, Vec::new());
    Ok(
        NeighborsOutput {
            items,
            next_cursor: page.next_cursor,
            truncated: page.truncated,
            confidence,
        },
    )
}

#[derive(Debug)]
pub struct TextSearchItem {
    pub ref_kind: String,
    pub ref_id: String,
    pub uri: String,
    pub track: String,
    pub score_micro: u64,
    pub preview: String,
}

impl Clone for TextSearchItem {
    fn clone(&self) -> (r: Self)
        ensures
            r == *self,
    {
        TextSearchItem {
            ref_kind: self.ref_kind.clone(),
            ref_id: self.ref_id.clone(),
            uri: self.uri.clone(),
            track: self.track.clone(),
            score_micro: self.score_micro,
            preview: self.preview.clone(),
        }
    }
}

/// The item stands for a fulltext entry inside the scope whose lexical
/// score against the query terms is positive and exact.
pub open spec fn spec_text_item_matches(
    item: TextSearchItem,
    entries: Seq<crate::index::FulltextEntry>,
    terms: Seq<String>,
    scope: Option<String>,
) -> bool {
    exists|j: int|
        {
            &&& 0 <= j < entries.len()
            &&& item.ref_kind@ == (#[trigger] entries[j].ref_kind@)
            &&& item.ref_id@ == entries[j].ref_id@
            &&& item.uri@ == entries[j].uri@
            &&& item.track@ == entries[j].track@
            &&& item.score_micro == spec_lexical_score(
                spec_normalized(entries[j].text@),
                terms,
            )
            &&& item.score_micro > 0
            &&& item.preview@ == (if entries[j].text@.len() > 260 {
                entries[j].text@.take(260) + "..."@
            } else {
                entries[j].text@
            })
            &&& (match scope {
                Some(sc) => spec_contains_seq(
                    spec_ascii_lower(entries[j].uri@),
                    spec_ascii_lower(sc@),
                ) || spec_contains_seq(
                    spec_ascii_lower(entries[j].track@),
                    spec_ascii_lower(sc@),
                ),
                None => true,
            })
        }
}

/// An item for this (uri, reference) pair is present.
pub open spec fn spec_text_listed(
    items: Seq<TextSearchItem>,
    uri: Seq<char>,
    ref_id: Seq<char>,
) -> bool {
    exists|k: int|
        0 <= k < items.len() && (#[trigger] items[k].uri@) == uri && items[k].ref_id@ == ref_id
}

/// A fulltext entry lies inside the requested scope.
pub open spec fn spec_in_scope(e: crate::index::FulltextEntry, scope: Option<String>) -> bool {
    match scope {
        Some(sc) => spec_contains_seq(spec_ascii_lower(e.uri@), spec_ascii_lower(sc@))
            || spec_contains_seq(spec_ascii_lower(e.track@), spec_ascii_lower(sc@)),
        None => true,
    }
}

#[derive(Debug)]
pub struct TextSearchOutput {
    pub items: Vec<TextSearchItem>,
    pub next_cursor: Option<String>,
    pub truncated: bool,
    pub confidence: ConfidenceBlock,
}

/// Lexical search over the fulltext entries: the score is the share of
/// query terms found in the normalized entry text; an optional scope
/// filters by case-insensitive substring of the URI or the track.
pub fn tool_text_search(
    index: &CapsuleIndex,
    query: &String,
    scope: Option<String>,
    limit: Option<u64>,
    cursor: Option<(u64, String)>,
) -> (r: Result<TextSearchOutput, ToolError>)
    ensures
        match r {
            Ok(out) => {
                &&& spec_normalized(query@).len() > 0
                &&& exists|terms: Seq<String>|
                    {
                        &&& spec_joined(terms) == spec_normalized(query@)
                        &&& (forall|k: int|
                            0 <= k < out.items.len() ==> spec_text_item_matches(
                                #[trigger] out.items[k],
                                index.fulltext@,
                                terms,
                                scope,
                            ))
                        &&& (cursor is None && !out.truncated ==> forall|j: int|
                            0 <= j < index.fulltext.len() && spec_in_scope(
                                (#[trigger] index.fulltext[j]),
                                scope,
                            ) && spec_lexical_score(
                                spec_normalized(index.fulltext[j].text@),
                                terms,
                            ) > 0 ==> spec_text_listed(
                                out.items@,
                                index.fulltext[j].uri@,
                                index.fulltext[j].ref_id@,
                            ))
                    }
                &&& (out.next_cursor is Some <==> out.truncated)
                &&& (out.truncated ==> out.items.len() == (match limit {
                    Some(v) => if v < 1 {
                        1int
                    } else if v > 150 {
                        150int
                    } else {
                        v as int
                    },
                    None => 25,
                }))
                &&& forall|i: int, j: int|
                    0 <= i <= j < out.items.len() ==> (#[trigger] out.items[i]).score_micro >= (
                    #[trigger] out.items[j]).score_micro
            },
            Err(e) => e.kind == ToolErrorKind::InvalidArgument && spec_normalized(query@).len()
                == 0,
        },
{
    let norm = normalize_text(query.as_str());
    if norm.as_str().unicode_len() == 0 {
        return Err(
            ToolError::invalid_argument(String::from_str("query contains no searchable terms")),
        );
    }
    let terms = split_words(norm.as_str());
    if terms.len() == 0 {
        return Err(
            ToolError::invalid_argument(String::from_str("query contains no searchable terms")),
        );
    }
    let scope_lower: Option<String> = match &scope {
        Some(sc) => Some(ascii_lower(sc.as_str())),
        None => None,
    };
    let mut rows: Vec<SortEntry> = Vec::new();
    let mut payload: Vec<TextSearchItem> = Vec::new();
    let mut j: usize = 0;
    while j < index.fulltext.len()
        invariant
            0 <= j <= index.fulltext.len(),
            rows.len() == payload.len(),
            terms.len() >= 1,
            spec_joined(terms@) == spec_normalized(query@),
            match (scope, scope_lower) {
                (Some(sc), Some(sl)) => sl@ == spec_ascii_lower(sc@),
                (None, None) => true,
                _ => false,
            },
            forall|t: int|
                0 <= t < rows.len() ==> {
                    &&& (#[trigger] rows[t]).idx == t
                    &&& rows[t].num <= SCORE_ONE
                    &&& rows[t].num == SCORE_ONE - payload[t].score_micro
                },
            forall|t: int|
                0 <= t < payload.len() ==> spec_text_item_matches(
                    #[trigger] payload[t],
                    index.fulltext@,
                    terms@,
                    scope,
                ),
            forall|t: int|
                0 <= t < j && spec_in_scope((#[trigger] index.fulltext[t]), scope)
                    && spec_lexical_score(spec_normalized(index.fulltext[t].text@), terms@) > 0
                    ==> spec_text_listed(
                    payload@,
                    index.fulltext[t].uri@,
                    index.fulltext[t].ref_id@,
                ),
        decreases index.fulltext.len() - j,
    {
        let entry = &index.fulltext[j];
        proof {
            assert(*entry == index.fulltext[j as int]);
        }
        let in_scope = match &scope_lower {
            Some(sl) => {
                let ul = ascii_lower(entry.uri.as_str());
                let tl = ascii_lower(entry.track.as_str());
                str_contains(ul.as_str(), sl.as_str()) || str_contains(tl.as_str(), sl.as_str())
            },
            None => true,
        };
        if in_scope {
            let score = lexical_score(entry.text.as_str(), &terms);
            if score > 0 {
                let preview_len = entry.text.as_str().unicode_len();
                let preview: String = if preview_len > 260 {
                    let mut p = String::from_str(entry.text.as_str().substring_char(0, 260));
                    p.append("...");
                    proof {
                        assert(p@ =~= entry.text@.take(260) + "..."@);
                    }
                    p
                } else {
                    entry.text.clone()
                };
                let mut key = entry.uri.clone();
                key.append("::");
                key.append(entry.ref_id.as_str());
                let ghost payload0 = payload@;
                payload.push(
                    TextSearchItem {
                        ref_kind: entry.ref_kind.clone(),
                        ref_id: entry.ref_id.clone(),
                        uri: entry.uri.clone(),
                        track: entry.track.clone(),
                        score_micro: score,
                        preview,
                    },
                );
                rows.push(
                    SortEntry { num: SCORE_ONE - score, text: key, idx: payload.len() - 1 },
                );
                proof {
                    let n = payload.len() - 1;
                    assert(forall|t: int|
                        0 <= t < n ==> (#[trigger] payload[t]) == payload0[t]);
                    assert(payload[n as int].score_micro == spec_lexical_score(
                        spec_normalized(index.fulltext[j as int].text@),
                        terms@,
                    ));
                    assert(payload[n as int].ref_kind@ == index.fulltext[j as int].ref_kind@);
                    assert(payload[n as int].uri@ == index.fulltext[j as int].uri@);
                    match &scope {
                        Some(sc) => {
                            assert(spec_contains_seq(
                                spec_ascii_lower(index.fulltext[j as int].uri@),
                                spec_ascii_lower(sc@),
                            ) || spec_contains_seq(
                                spec_ascii_lower(index.fulltext[j as int].track@),
                                spec_ascii_lower(sc@),
                            ));
                        },
                        None => {},
                    }
                    assert(spec_text_item_matches(
                        payload[n as int],
                        index.fulltext@,
                        terms@,
                        scope,
                    ));
                    assert(spec_text_listed(
                        payload@,
                        index.fulltext[j as int].uri@,
                        index.fulltext[j as int].ref_id@,
                    ));
                    assert forall|x: Seq<char>, y: Seq<char>| spec_text_listed(payload0, x, y)
                        implies spec_text_listed(payload@, x, y) by {
                        let k = choose|k: int|
                            0 <= k < payload0.len() && (#[trigger] payload0[k].uri@) == x
                                && payload0[k].ref_id@ == y;
                        assert(payload[k].uri@ == x && payload[k].ref_id@ == y);
                    }
                }
            }
        }
        proof {
            assert(spec_in_scope(index.fulltext[j as int], scope) ==> (match &scope_lower {
                Some(_) => true,
                None => true,
            }));
        }
        j += 1;
    }
    let lim = parse_limit(limit, 25, 150);
    let ghost rows0 = rows@;
    let had_cursor = cursor.is_some();
    let page = paginate_ranked(rows, lim, cursor);
    proof {
        crate::order::lemma_permutation_contains(rows0, page.all_sorted@);
        assert forall|t: int| 0 <= t < page.entries.len() implies {
            &&& (#[trigger] page.entries[t]).idx < payload.len()
            &&& page.entries[t].num == SCORE_ONE - payload[page.entries[t].idx as int].score_micro
        } by {
            let ss = page.all_sorted@;
            let start = page.start@;
            assert(page.entries@[t] == ss[start + t]);
            assert(ss.contains(ss[start + t]));
            let j0 = choose|j0: int| 0 <= j0 < rows0.len() && rows0[j0] == ss[start + t];
            assert(rows0[j0].idx == j0);
        }
    }
    let mut items: Vec<TextSearchItem> = Vec::new();
    let mut k: usize = 0;
    while k < page.entries.len()
        invariant
            0 <= k <= page.entries.len(),
            items.len() == k,
            forall|t: int|
                0 <= t < page.entries.len() ==> {
                    &&& (#[trigger] page.entries[t]).idx < payload.len()
                    &&& page.entries[t].num == SCORE_ONE - payload[page.entries[t].idx as int].score_micro
                },
            forall|t: int|
                0 <= t < k ==> (#[trigger] items[t]) == payload[page.entries[t].idx as int],
        decreases page.entries.len() - k,
    {
        items.push(payload[page.entries[k].idx].clone());
        k += 1;
    }
    proof {
        let ss = page.all_sorted@;
        let start = page.start@;
        assert forall|i: int, j2: int| 0 <= i <= j2 < items.len() implies (
        #[trigger] items[i]).score_micro >= (#[trigger] items[j2]).score_micro by {
            assert(page.entries@[i] == ss[start + i]);
            assert(page.entries@[j2] == ss[start + j2]);
            assert(spec_entry_le(ss[start + i], ss[start + j2]));
        }
        assert forall|k2: int| 0 <= k2 < items.len() implies spec_text_item_matches(
            #[trigger] items@[k2],
            index.fulltext@,
            terms@,
            scope,
        ) by {
            assert(items[k2] == payload[page.entries[k2].idx as int]);
        }
        if page.truncated {
            assert(page.entries.len() == lim);
        }
        if !had_cursor && !page.truncated {
            assert(page.start@ == 0);
            assert(page.entries@ =~= page.all_sorted@);
            assert forall|j2: int|
                0 <= j2 < index.fulltext.len() && spec_in_scope(
                    (#[trigger] index.fulltext[j2]),
                    scope,
                ) && spec_lexical_score(spec_normalized(index.fulltext[j2].text@), terms@) > 0
                implies spec_text_listed(
                items@,
                index.fulltext[j2].uri@,
                index.fulltext[j2].ref_id@,
            ) by {
                let t = choose|t: int|
                    0 <= t < payload@.len() && (#[trigger] payload@[t].uri@)
                        == index.fulltext[j2].uri@ && payload@[t].ref_id@
                        == index.fulltext[j2].ref_id@;
                assert(rows0[t].idx == t);
                assert(page.all_sorted@.contains(rows0[t]));
                let p = choose|p: int|
                    0 <= p < page.all_sorted@.len() && page.all_sorted@[p] == rows0[t];
                assert(page.entries@[p] == page.all_sorted@[p]);
                assert(items[p] == payload[page.entries[p].idx as int]);
                assert(items[p] == payload[t as int]);
            }
        }
    }
    let conf_score: u64 = if items.len() == 0 {
        300000
    } else {
        860000
    };
    let mut factors: Vec<String> = Vec::new();
    factors.push(String::from_str("lexical_match"));
    factors.push(String::from_str("deterministic_scoring"));
    factors.push(String::from_str("semantic_fallback_disabled"));
    let confidence = confidence_block(conf_score, factors, Vec::new());
    Ok(
        TextSearchOutput {
            items,
            next_cursor: page.next_cursor,
            truncated: page.truncated,
            confidence,
        },
    )
}


/// Path normalization for file lookups: backslashes become slashes, then
/// surrounding blanks and slashes are removed.
pub open spec fn spec_slash_mapped(c: char) -> char {
    if c == '\\' {
        '/'
    } else {
        c
    }
}

pub open spec fn spec_trim_slashes_start(s: Seq<char>) -> Seq<char>
    decreases s.len(),
{
    if s.len() > 0 && s[0] == '/' {
        spec_trim_slashes_start(s.drop_first())
    } else {
        s
    }
}

pub open spec fn spec_trim_slashes_end(s: Seq<char>) -> Seq<char>
    decreases s.len(),
{
    if s.len() > 0 && s.last() == '/' {
        spec_trim_slashes_end(s.drop_last())
    } else {
        s
    }
}

pub open spec fn spec_path_norm(s: Seq<char>) -> Seq<char> {
    spec_trim_slashes_end(
        spec_trim_slashes_start(spec_trimmed(s.map_values(|c: char| spec_slash_mapped(c)))),
    )
}

/// Replaces backslashes with slashes and trims surrounding blanks and
/// slashes.
pub fn normalize_path_like(input: &str) -> (r: String)
    ensures
        r@ == spec_path_norm(input@),
{
    let n = input.unicode_len();
    let mut mapped = String::new();
    let mut i: usize = 0;
    while i < n
        invariant
            n == input@.len(),
            0 <= i <= n,
            mapped@ =~= input@.take(i as int).map_values(|c: char| spec_slash_mapped(c)),
        decreases n - i,
    {
        let c = input.get_char(i);
        let m: char = if c == '\\' {
            '/'
        } else {
            c
        };
        push_char(&mut mapped, m);
        proof {
            assert(mapped@ =~= input@.take(i as int + 1).map_values(
                |c: char| spec_slash_mapped(c),
            ));
        }
        i += 1;
    }
    proof {
        assert(input@.take(n as int) =~= input@);
    }
    let trimmed = trim_blanks(mapped.as_str());
    let tn = trimmed.as_str().unicode_len();
    let mut a: usize = 0;
    proof {
        assert(trimmed@.skip(0) =~= trimmed@);
    }
    while a < tn && trimmed.as_str().get_char(a) == '/'
        invariant
            tn == trimmed@.len(),
            0 <= a <= tn,
            spec_trim_slashes_start(trimmed@) == spec_trim_slashes_start(
                trimmed@.skip(a as int),
            ),
        decreases tn - a,
    {
        proof {
            assert(trimmed@.skip(a as int)[0] == trimmed@[a as int]);
            assert(trimmed@.skip(a as int).drop_first() =~= trimmed@.skip(a as int + 1));
        }
        a += 1;
    }
    proof {
        if a < tn {
            assert(trimmed@.skip(a as int)[0] == trimmed@[a as int]);
            assert(spec_trim_slashes_start(trimmed@) == trimmed@.skip(a as int));
        } else {
            assert(trimmed@.skip(a as int).len() == 0);
            assert(spec_trim_slashes_start(trimmed@) =~= trimmed@.skip(a as int));
        }
    }
    let mut bb: usize = tn;
    let ghost st = trimmed@.skip(a as int);
    while bb > a && trimmed.as_str().get_char(bb - 1) == '/'
        invariant
            tn == trimmed@.len(),
            0 <= a <= bb <= tn,
            st == trimmed@.skip(a as int),
            spec_trim_slashes_start(trimmed@) == st,
            spec_trim_slashes_end(st) == spec_trim_slashes_end(
                trimmed@.subrange(a as int, bb as int),
            ),
        decreases bb,
    {
        proof {
            let cur = trimmed@.subrange(a as int, bb as int);
            assert(cur.last() == trimmed@[bb - 1]);
            assert(cur.drop_last() =~= trimmed@.subrange(a as int, bb as int - 1));
        }
        bb -= 1;
    }
    proof {
        let cur = trimmed@.subrange(a as int, bb as int);
        if bb > a {
            assert(cur.last() == trimmed@[bb - 1]);
            assert(spec_trim_slashes_end(cur) == cur);
        } else {
            assert(cur.len() == 0);
            assert(spec_trim_slashes_end(cur) =~= cur);
        }
    }
    let out = trimmed.as_str().substring_char(a, bb);
    String::from_str(out)
}

/// Some "CALLS" edge connects `a` to `b`.
pub open spec fn spec_calls_edge(edges: Seq<EdgeRecord>, a: Seq<char>, b: Seq<char>) -> bool {
    exists|e: int|
        0 <= e < edges.len() && (#[trigger] edges[e].relation_type@) == "CALLS"@
            && edges[e].source_id@ == a && edges[e].target_id@ == b
}

/// A valid call path: starts at `from`, follows only "CALLS" edges, and
/// never revisits a node.
pub open spec fn spec_call_path_ok(path: Seq<String>, edges: Seq<EdgeRecord>, from: Seq<char>) -> bool {
    &&& path.len() >= 1
    &&& path[0]@ == from
    &&& forall|i: int|
        0 <= i < path.len() - 1 ==> spec_calls_edge(edges, (#[trigger] path[i]@), path[i + 1]@)
    &&& forall|i: int, j: int| 0 <= i < j < path.len() ==> (#[trigger] path[i]@) != (#[trigger] path[j]@)
}

#[derive(Debug)]
pub struct CallTraceOutput {
    pub paths: Vec<Vec<String>>,
    pub confidence: ConfidenceBlock,
}

fn vec_str_contains(v: &Vec<String>, x: &String) -> (r: bool)
    ensures
        r == exists|i: int| 0 <= i < v.len() && (#[trigger] v[i]@) == x@,
{
    let mut i: usize = 0;
    while i < v.len()
        invariant
            0 <= i <= v.len(),
            forall|k: int| 0 <= k < i ==> (#[trigger] v[k]@) != x@,
        decreases v.len() - i,
    {
        if v[i].eq(x) {
            return true;
        }
        i += 1;
    }
    false
}

fn clone_path(p: &Vec<String>) -> (r: Vec<String>)
    ensures
        r@.len() == p@.len(),
        forall|i: int| 0 <= i < p@.len() ==> (#[trigger] r[i]) == p[i],
{
    let mut out: Vec<String> = Vec::new();
    let mut i: usize = 0;
    while i < p.len()
        invariant
            0 <= i <= p.len(),
            out.len() == i,
            forall|k: int| 0 <= k < i ==> (#[trigger] out[k]) == p[k],
        decreases p.len() - i,
    {
        out.push(p[i].clone());
        i += 1;
    }
    out
}

/// Breadth-first enumeration of call paths from a node, using only
/// "CALLS" edges, with no revisits within a path, a depth cap and a path
/// count cap. The exploration spends at most a fixed work budget of
/// one hundred thousand dequeue steps, so the enumeration always
/// terminates; on graphs whose search frontier outgrows that budget it
/// may return fewer paths than exist. With a target, only paths ending at
/// the target are returned, otherwise the direct extensions of the start
/// node.
pub fn tool_call_trace(
    index: &CapsuleIndex,
    from_node: &String,
    to_node: Option<String>,
    max_depth: Option<u64>,
    limit_paths: Option<u64>,
) -> (r: Result<CallTraceOutput, ToolError>)
    ensures
        r is Ok <==> (spec_node_known(index.nodes@, from_node@) && (match to_node {
            Some(t) => spec_node_known(index.nodes@, t@),
            None => true,
        })),
        match r {
            Ok(out) => {
                &&& forall|k: int|
                    0 <= k < out.paths.len() ==> ((#[trigger] out.paths[k])@).len() <= (
                    match max_depth {
                        Some(v) => if v < 1 {
                            1int
                        } else if v > 10 {
                            10int
                        } else {
                            v as int
                        },
                        None => 4,
                    }) + 1
                &&& out.paths.len() <= (match limit_paths {
                    Some(v) => if v < 1 {
                        1int
                    } else if v > 20 {
                        20int
                    } else {
                        v as int
                    },
                    None => 3,
                })
                &&& forall|k: int|
                    0 <= k < out.paths.len() ==> spec_call_path_ok(
                        (#[trigger] out.paths[k])@,
                        index.edges@,
                        from_node@,
                    ) && out.paths[k].len() >= 2
                &&& (match to_node {
                    Some(target) => forall|k: int|
                        0 <= k < out.paths.len() ==> ((#[trigger] out.paths[k])@).last()@
                            == target@,
                    None => true,
                })
                &&& forall|i: int, j: int|
                    0 <= i <= j < out.paths.len() ==> ((#[trigger] out.paths[i])@).len() <= ((
                    #[trigger] out.paths[j])@).len()
            },
            Err(e) => e.kind == ToolErrorKind::NotFound,
        },
{
    if find_node_index(&index.nodes, from_node).is_none() {
        return Err(ToolError::not_found(String::from_str("fromNodeId not found")));
    }
    match &to_node {
        Some(target) => {
            if find_node_index(&index.nodes, target).is_none() {
                return Err(ToolError::not_found(String::from_str("toNodeId not found")));
            }
        },
        None => {},
    }
    let depth_cap: usize = match max_depth {
        Some(v) => if v < 1 {
            1
        } else if v > 10 {
            10
        } else {
            v as usize
        },
        None => 4,
    };
    let path_cap: usize = match limit_paths {
        Some(v) => if v < 1 {
            1
        } else if v > 20 {
            20
        } else {
            v as usize
        },
        None => 3,
    };
    let mut paths: Vec<Vec<String>> = Vec::new();
    let mut queue: Vec<Vec<String>> = Vec::new();
    let mut seed: Vec<String> = Vec::new();
    seed.push(from_node.clone());
    queue.push(seed);
    let mut fuel: usize = 100000;
    while queue.len() > 0 && fuel > 0
        invariant
            paths.len() <= path_cap,
            depth_cap >= 1,
            forall|q: int|
                0 <= q < queue.len() ==> spec_call_path_ok(
                    (#[trigger] queue[q])@,
                    index.edges@,
                    from_node@,
                ) && queue[q].len() <= depth_cap + 1,
            forall|k: int|
                0 <= k < paths.len() ==> spec_call_path_ok(
                    (#[trigger] paths[k])@,
                    index.edges@,
                    from_node@,
                ) && paths[k].len() >= 2 && paths[k].len() <= depth_cap + 1,
            match to_node {
                Some(target) => forall|k: int|
                    0 <= k < paths.len() ==> ((#[trigger] paths[k])@).last()@ == target@,
                None => true,
            },
            // breadth-first discipline: path lengths never decrease along
            // the queue or the collected results, any two queued paths
            // differ in length by at most one, and the queue front is
            // never shorter than the last collected path
            forall|a: int, b: int|
                0 <= a <= b < queue.len() ==> ((#[trigger] queue[a])@).len() <= ((
                #[trigger] queue[b])@).len(),
            forall|a: int, b: int|
                0 <= a < queue.len() && 0 <= b < queue.len() ==> ((#[trigger] queue[b])@).len()
                    <= ((#[trigger] queue[a])@).len() + 1,
            forall|a: int, b: int|
                0 <= a <= b < paths.len() ==> ((#[trigger] paths[a])@).len() <= ((
                #[trigger] paths[b])@).len(),
            forall|a: int, b: int|
                0 <= a < paths.len() && 0 <= b < queue.len() ==> ((#[trigger] paths[a])@).len()
                    <= ((#[trigger] queue[b])@).len(),
        decreases fuel,
    {
        fuel -= 1;
        if paths.len() >= path_cap {
            break ;
        }
        let path = queue.remove(0);
        let plen = path.len();
        let last = path[plen - 1].clone();
        let is_hit = match &to_node {
            Some(target) => last.eq(target) && plen > 1,
            None => plen > 1,
        };
        if is_hit {
            paths.push(path);
            continue ;
        }
        if plen > depth_cap {
            continue ;
        }
        let mut e: usize = 0;
        while e < index.edges.len()
            invariant
                spec_call_path_ok(path@, index.edges@, from_node@),
                path.len() == plen,
                plen >= 1,
                plen <= depth_cap,
                last@ == path@[plen - 1]@,
                0 <= e <= index.edges.len(),
                forall|q: int|
                    0 <= q < queue.len() ==> spec_call_path_ok(
                        (#[trigger] queue[q])@,
                        index.edges@,
                        from_node@,
                    ) && queue[q].len() <= depth_cap + 1,
                forall|q: int|
                    0 <= q < queue.len() ==> plen <= ((#[trigger] queue[q])@).len() <= plen
                        + 1,
                forall|a: int, b: int|
                    0 <= a <= b < queue.len() ==> ((#[trigger] queue[a])@).len() <= ((
                    #[trigger] queue[b])@).len(),
                forall|a: int|
                    0 <= a < paths.len() ==> ((#[trigger] paths[a])@).len() <= plen,
                forall|a: int, b: int|
                    0 <= a <= b < paths.len() ==> ((#[trigger] paths[a])@).len() <= ((
                    #[trigger] paths[b])@).len(),
            decreases index.edges.len() - e,
        {
            let edge = &index.edges[e];
            proof {
                assert(*edge == index.edges[e as int]);
            }
            if str_eq_str(edge.relation_type.as_str(), "CALLS") && edge.source_id.eq(&last) {
                if !vec_str_contains(&path, &edge.target_id) {
                    let mut new_path = clone_path(&path);
                    new_path.push(edge.target_id.clone());
                    proof {
                        assert(forall|i: int|
                            0 <= i < plen ==> (#[trigger] new_path@[i]) == path@[i]);
                        assert(new_path@.last()@ == index.edges[e as int].target_id@);
                        assert(spec_calls_edge(
                            index.edges@,
                            path@[plen - 1]@,
                            index.edges[e as int].target_id@,
                        ));
                        assert(spec_call_path_ok(new_path@, index.edges@, from_node@));
                    }
                    queue.push(new_path);
                }
            }
            e += 1;
        }
    }
    let mut factors: Vec<String> = Vec::new();
    factors.push(String::from_str("graph_call_edges"));
    factors.push(String::from_str("breadth_first_search"));
    let mut warnings: Vec<String> = Vec::new();
    let conf: u64 = if paths.len() == 0 {
        warnings.push(String::from_str("no_path_within_depth"));
        450000
    } else {
        880000
    };
    let confidence = confidence_block(conf, factors, warnings);
    Ok(CallTraceOutput { paths, confidence })
}

/// Number of process steps of a process.
pub open spec fn spec_step_count_of(steps: Seq<ProcessStepRecord>, pid: Seq<char>) -> int
    decreases steps.len(),
{
    if steps.len() == 0 {
        0
    } else {
        spec_step_count_of(steps.drop_last(), pid) + if steps.last().process_id@ == pid {
            1int
        } else {
            0int
        }
    }
}

fn step_count_of(steps: &Vec<ProcessStepRecord>, pid: &String) -> (r: usize)
    ensures
        r == spec_step_count_of(steps@, pid@),
{
    let mut acc: usize = 0;
    let mut j: usize = 0;
    proof {
        assert(steps@.take(0).len() == 0);
    }
    while j < steps.len()
        invariant
            0 <= j <= steps.len(),
            acc <= j,
            acc == spec_step_count_of(steps@.take(j as int), pid@),
        decreases steps.len() - j,
    {
        proof {
            assert(steps@.take(j as int + 1).last() == steps@[j as int]);
            assert(steps@.take(j as int + 1).drop_last() =~= steps@.take(j as int));
        }
        if steps[j].process_id.eq(pid) {
            acc += 1;
        }
        j += 1;
    }
    proof {
        assert(steps@.take(steps.len() as int) =~= steps@);
    }
    acc
}

#[derive(Debug)]
pub struct ProcessListItem {
    pub process_id: String,
    pub name: String,
    pub uri: String,
    pub steps_count: usize,
    pub score_micro: u64,
}

impl Clone for ProcessListItem {
    fn clone(&self) -> (r: Self)
        ensures
            r == *self,
    {
        ProcessListItem {
            process_id: self.process_id.clone(),
            name: self.name.clone(),
            uri: self.uri.clone(),
            steps_count: self.steps_count,
            score_micro: self.score_micro,
        }
    }
}

/// A listing item for this process identifier is present.
pub open spec fn spec_process_listed(items: Seq<ProcessListItem>, id: Seq<char>) -> bool {
    exists|k: int| 0 <= k < items.len() && (#[trigger] items[k].process_id@) == id
}

#[derive(Debug)]
pub struct ProcessListOutput {
    pub items: Vec<ProcessListItem>,
    pub next_cursor: Option<String>,
    pub truncated: bool,
    pub confidence: ConfidenceBlock,
}

/// The item stands for a "Process" node with its exact step count and the
/// score `0.6 + min(steps, 20) / 50`.
pub open spec fn spec_process_item_matches(
    item: ProcessListItem,
    nodes: Seq<NodeRecord>,
    steps: Seq<ProcessStepRecord>,
) -> bool {
    exists|j: int|
        {
            &&& 0 <= j < nodes.len()
            &&& (#[trigger] nodes[j].label@) == "Process"@
            &&& item.process_id@ == nodes[j].id@
            &&& item.name@ == nodes[j].name@
            &&& item.uri@ == nodes[j].uri@
            &&& item.steps_count == spec_step_count_of(steps, nodes[j].id@)
            &&& item.score_micro == 600000 + (if item.steps_count > 20 {
                20int
            } else {
                item.steps_count as int
            }) * 20000
        }
}

/// Lists "Process" nodes with their step counts, ranked by step count.
pub fn tool_process_list(
    index: &CapsuleIndex,
    limit: Option<u64>,
    cursor: Option<(u64, String)>,
) -> (r: ProcessListOutput)
    ensures
        forall|k: int|
            0 <= k < r.items.len() ==> spec_process_item_matches(
                #[trigger] r.items[k],
                index.nodes@,
                index.process_steps@,
            ),
        forall|i: int, j: int|
            0 <= i <= j < r.items.len() ==> (#[trigger] r.items[i]).score_micro >= (
            #[trigger] r.items[j]).score_micro,
        r.next_cursor is Some <==> r.truncated,
        r.truncated ==> r.items.len() == (match limit {
            Some(v) => if v < 1 {
                1int
            } else if v > 100 {
                100int
            } else {
                v as int
            },
            None => 20,
        }),
        cursor is None && !r.truncated ==> forall|j: int|
            0 <= j < index.nodes.len() && (#[trigger] index.nodes[j].label@) == "Process"@
                ==> spec_process_listed(r.items@, index.nodes[j].id@),
{
    let mut rows: Vec<SortEntry> = Vec::new();
    let mut payload: Vec<ProcessListItem> = Vec::new();
    let mut j: usize = 0;
    while j < index.nodes.len()
        invariant
            0 <= j <= index.nodes.len(),
            rows.len() == payload.len(),
            forall|t: int|
                0 <= t < rows.len() ==> {
                    &&& (#[trigger] rows[t]).idx == t
                    &&& rows[t].num <= SCORE_ONE
                    &&& rows[t].num == SCORE_ONE - payload[t].score_micro
                },
            forall|t: int|
                0 <= t < payload.len() ==> spec_process_item_matches(
                    #[trigger] payload[t],
                    index.nodes@,
                    index.process_steps@,
                ),
            forall|t: int|
                0 <= t < j && (#[trigger] index.nodes[t].label@) == "Process"@
                    ==> spec_process_listed(payload@, index.nodes[t].id@),
        decreases index.nodes.len() - j,
    {
        let node = &index.nodes[j];
        proof {
            assert(*node == index.nodes[j as int]);
        }
        if str_eq_str(node.label.as_str(), "Process") {
            let steps_count = step_count_of(&index.process_steps, &node.id);
            let capped: u64 = if steps_count > 20 {
                20
            } else {
                steps_count as u64
            };
            let score: u64 = 600000 + capped * 20000;
            let mut key = node.name.clone();
            key.append("::");
            key.append(node.id.as_str());
            let ghost payload0 = payload@;
            payload.push(
                ProcessListItem {
                    process_id: node.id.clone(),
                    name: node.name.clone(),
                    uri: node.uri.clone(),
                    steps_count,
                    score_micro: score,
                },
            );
            rows.push(SortEntry { num: SCORE_ONE - score, text: key, idx: payload.len() - 1 });
            proof {
                let n = payload.len() - 1;
                assert(forall|t: int| 0 <= t < n ==> (#[trigger] payload[t]) == payload0[t]);
                assert(spec_process_item_matches(
                    payload[n as int],
                    index.nodes@,
                    index.process_steps@,
                ));
                assert(payload[n as int].process_id@ == index.nodes[j as int].id@);
                assert(spec_process_listed(payload@, index.nodes[j as int].id@));
                assert forall|x: Seq<char>| spec_process_listed(payload0, x)
                    implies spec_process_listed(payload@, x) by {
                    let k = choose|k: int|
                        0 <= k < payload0.len() && (#[trigger] payload0[k].process_id@) == x;
                    assert(payload[k].process_id@ == x);
                }
            }
        }
        j += 1;
    }
    let lim = parse_limit(limit, 20, 100);
    let ghost rows0 = rows@;
    let had_cursor = cursor.is_some();
    let page = paginate_ranked(rows, lim, cursor);
    proof {
        crate::order::lemma_permutation_contains(rows0, page.all_sorted@);
        assert forall|t: int| 0 <= t < page.entries.len() implies {
            &&& (#[trigger] page.entries[t]).idx < payload.len()
            &&& page.entries[t].num == SCORE_ONE - payload[page.entries[t].idx as int].score_micro
        } by {
            let ss = page.all_sorted@;
            let start = page.start@;
            assert(page.entries@[t] == ss[start + t]);
            assert(ss.contains(ss[start + t]));
            let j0 = choose|j0: int| 0 <= j0 < rows0.len() && rows0[j0] == ss[start + t];
            assert(rows0[j0].idx == j0);
        }
    }
    let mut items: Vec<ProcessListItem> = Vec::new();
    let mut k: usize = 0;
    while k < page.entries.len()
        invariant
            0 <= k <= page.entries.len(),
            items.len() == k,
            forall|t: int|
                0 <= t < page.entries.len() ==> {
                    &&& (#[trigger] page.entries[t]).idx < payload.len()
                    &&& page.entries[t].num == SCORE_ONE - payload[page.entries[t].idx as int].score_micro
                },
            forall|t: int|
                0 <= t < k ==> (#[trigger] items[t]) == payload[page.entries[t].idx as int],
        decreases page.entries.len() - k,
    {
        items.push(payload[page.entries[k].idx].clone());
        k += 1;
    }
    proof {
        let ss = page.all_sorted@;
        let start = page.start@;
        assert forall|i: int, j2: int| 0 <= i <= j2 < items.len() implies (
        #[trigger] items[i]).score_micro >= (#[trigger] items[j2]).score_micro by {
            assert(page.entries@[i] == ss[start + i]);
            assert(page.entries@[j2] == ss[start + j2]);
            assert(spec_entry_le(ss[start + i], ss[start + j2]));
        }
        if page.truncated {
            assert(page.entries.len() == lim);
        }
        if !had_cursor && !page.truncated {
            assert(page.start@ == 0);
            assert(page.entries@ =~= page.all_sorted@);
            assert forall|j2: int|
                0 <= j2 < index.nodes.len() && (#[trigger] index.nodes[j2].label@)
                    == "Process"@ implies spec_process_listed(
                items@,
                index.nodes[j2].id@,
            ) by {
                let t = choose|t: int|
                    0 <= t < payload@.len() && (#[trigger] payload@[t].process_id@)
                        == index.nodes[j2].id@;
                assert(rows0[t].idx == t);
                assert(page.all_sorted@.contains(rows0[t]));
                let p = choose|p: int|
                    0 <= p < page.all_sorted@.len() && page.all_sorted@[p] == rows0[t];
                assert(page.entries@[p] == page.all_sorted@[p]);
                assert(items[p] == payload[page.entries[p].idx as int]);
                assert(items[p] == payload[t as int]);
            }
        }
    }
    let mut factors: Vec<String> = Vec::new();
    factors.push(String::from_str("process_nodes"));
    factors.push(String::from_str("step_index"));
    let confidence = confidence_block(920000, factors, Vec::new());
    ProcessListOutput {
        items,
        next_cursor: page.next_cursor,
        truncated: page.truncated,
        confidence,
    }
}

#[derive(Debug)]
pub struct ProcessStepItem {
    pub step: usize,
    pub function_id: String,
    pub function: Option<NodePayload>,
    pub relation_uri: String,
}

impl Clone for ProcessStepItem {
    fn clone(&self) -> (r: Self)
        ensures
            r == *self,
    {
        ProcessStepItem {
            step: self.step,
            function_id: self.function_id.clone(),
            function: match &self.function {
                Some(n) => Some(n.clone()),
                None => None,
            },
            relation_uri: self.relation_uri.clone(),
        }
    }
}

#[derive(Debug)]
pub struct ProcessGetOutput {
    pub process: NodePayload,
    pub steps: Vec<ProcessStepItem>,
    pub confidence: ConfidenceBlock,
}

/// The ordered steps of one process: succeeds if and only if the first
/// node under the identifier is a "Process"; not-found if and only if the
/// identifier is unknown, invalid-argument otherwise.
pub fn tool_process_get(index: &CapsuleIndex, process_id: &String) -> (r: Result<
    ProcessGetOutput,
    ToolError,
>)
    ensures
        r is Ok <==> exists|i: int|
            spec_first_node(index.nodes@, process_id@, i) && (#[trigger] index.nodes[i].label@)
                == "Process"@,
        match r {
            Ok(out) => {
                &&& exists|i: int|
                    0 <= i < index.nodes.len() && (#[trigger] index.nodes[i].id@) == process_id@
                        && index.nodes[i].label@ == "Process"@ && spec_node_payload(
                        out.process,
                        index.nodes[i],
                    )
                &&& out.steps.len() == spec_step_count_of(index.process_steps@, process_id@)
                &&& forall|k: int|
                    0 <= k < out.steps.len() ==> exists|j: int|
                        0 <= j < index.process_steps.len() && (
                        #[trigger] out.steps[k].relation_uri@)
                            == index.process_steps[j].relation_uri@ && out.steps[k].step
                            == index.process_steps[j].step && out.steps[k].function_id@
                            == index.process_steps[j].function_id@
                            && index.process_steps[j].process_id@ == process_id@
            },
            Err(e) => {
                &&& (e.kind == ToolErrorKind::NotFound <==> !spec_node_known(
                    index.nodes@,
                    process_id@,
                ))
                &&& (e.kind == ToolErrorKind::InvalidArgument ==> exists|i: int|
                    spec_first_node(index.nodes@, process_id@, i) && (
                    #[trigger] index.nodes[i].label@) != "Process"@)
                &&& (e.kind == ToolErrorKind::NotFound || e.kind
                    == ToolErrorKind::InvalidArgument)
            },
        },
{
    let i = match find_node_index(&index.nodes, process_id) {
        Some(i) => i,
        None => {
            return Err(ToolError::not_found(String::from_str("processId not found")));
        },
    };
    if !str_eq_str(index.nodes[i].label.as_str(), "Process") {
        proof {
            assert(spec_first_node(index.nodes@, process_id@, i as int));
            assert(forall|k: int|
                spec_first_node(index.nodes@, process_id@, k) ==> k == i);
        }
        return Err(
            ToolError::invalid_argument(String::from_str("nodeId is not a Process node")),
        );
    }
    proof {
        assert(spec_first_node(index.nodes@, process_id@, i as int));
    }
    let mut steps: Vec<ProcessStepItem> = Vec::new();
    let mut j: usize = 0;
    proof {
        assert(index.process_steps@.take(0).len() == 0);
    }
    while j < index.process_steps.len()
        invariant
            0 <= j <= index.process_steps.len(),
            steps.len() == spec_step_count_of(index.process_steps@.take(j as int), process_id@),
            forall|k: int|
                0 <= k < steps.len() ==> exists|t: int|
                    0 <= t < index.process_steps.len() && (#[trigger] steps[k].relation_uri@)
                        == index.process_steps[t].relation_uri@ && steps[k].step
                        == index.process_steps[t].step && steps[k].function_id@
                        == index.process_steps[t].function_id@
                        && index.process_steps[t].process_id@ == process_id@,
        decreases index.process_steps.len() - j,
    {
        proof {
            assert(index.process_steps@.take(j as int + 1).last()
                == index.process_steps@[j as int]);
            assert(index.process_steps@.take(j as int + 1).drop_last()
                =~= index.process_steps@.take(j as int));
        }
        let st = &index.process_steps[j];
        if st.process_id.eq(process_id) {
            let function = match find_node_index(&index.nodes, &st.function_id) {
                Some(k) => Some(node_payload(&index.nodes[k])),
                None => None,
            };
            let ghost steps0 = steps@;
            steps.push(
                ProcessStepItem {
                    step: st.step,
                    function_id: st.function_id.clone(),
                    function,
                    relation_uri: st.relation_uri.clone(),
                },
            );
            proof {
                let n = steps.len() - 1;
                assert(forall|k: int| 0 <= k < n ==> (#[trigger] steps[k]) == steps0[k]);
                assert(steps[n as int].relation_uri@
                    == index.process_steps[j as int].relation_uri@);
            }
        }
        j += 1;
    }
    proof {
        assert(index.process_steps@.take(index.process_steps.len() as int)
            =~= index.process_steps@);
    }
    let process = node_payload(&index.nodes[i]);
    let mut factors: Vec<String> = Vec::new();
    factors.push(String::from_str("process_step_index"));
    factors.push(String::from_str("exact_process_id"));
    let confidence = confidence_block(940000, factors, Vec::new());
    Ok(ProcessGetOutput { process, steps, confidence })
}

/// Number of membership records of a community.
pub open spec fn spec_member_count_of(
    recs: Seq<crate::index::CommunityMembershipRecord>,
    cid: Seq<char>,
) -> int
    decreases recs.len(),
{
    if recs.len() == 0 {
        0
    } else {
        spec_member_count_of(recs.drop_last(), cid) + if recs.last().community_id@ == cid {
            1int
        } else {
            0int
        }
    }
}

#[derive(Debug)]
pub struct CommunityItem {
    pub community_id: String,
    pub name: String,
    pub uri: String,
    pub members: usize,
    pub score_micro: u64,
}

impl Clone for CommunityItem {
    fn clone(&self) -> (r: Self)
        ensures
            r == *self,
    {
        CommunityItem {
            community_id: self.community_id.clone(),
            name: self.name.clone(),
            uri: self.uri.clone(),
            members: self.members,
            score_micro: self.score_micro,
        }
    }
}

/// A listing item for this community identifier is present.
pub open spec fn spec_community_listed(items: Seq<CommunityItem>, id: Seq<char>) -> bool {
    exists|k: int| 0 <= k < items.len() && (#[trigger] items[k].community_id@) == id
}

#[derive(Debug)]
pub struct CommunityListOutput {
    pub items: Vec<CommunityItem>,
    pub next_cursor: Option<String>,
    pub truncated: bool,
    pub confidence: ConfidenceBlock,
}

/// The item stands for a "Community" node with its exact membership count
/// and the score `0.65 + min(members, 30) / 100`.
pub open spec fn spec_community_item_matches(
    item: CommunityItem,
    nodes: Seq<NodeRecord>,
    members: Seq<crate::index::CommunityMembershipRecord>,
) -> bool {
    exists|j: int|
        {
            &&& 0 <= j < nodes.len()
            &&& (#[trigger] nodes[j].label@) == "Community"@
            &&& item.community_id@ == nodes[j].id@
            &&& item.name@ == nodes[j].name@
            &&& item.uri@ == nodes[j].uri@
            &&& item.members == spec_member_count_of(members, nodes[j].id@)
            &&& item.score_micro == 650000 + (if item.members > 30 {
                30int
            } else {
                item.members as int
            }) * 10000
        }
}

/// Lists "Community" nodes with their membership counts.
pub fn tool_community_list(
    index: &CapsuleIndex,
    limit: Option<u64>,
    cursor: Option<(u64, String)>,
) -> (r: CommunityListOutput)
    ensures
        forall|k: int|
            0 <= k < r.items.len() ==> spec_community_item_matches(
                #[trigger] r.items[k],
                index.nodes@,
                index.community_membership@,
            ),
        forall|i: int, j: int|
            0 <= i <= j < r.items.len() ==> (#[trigger] r.items[i]).score_micro >= (
            #[trigger] r.items[j]).score_micro,
        r.next_cursor is Some <==> r.truncated,
        r.truncated ==> r.items.len() == (match limit {
            Some(v) => if v < 1 {
                1int
            } else if v > 100 {
                100int
            } else {
                v as int
            },
            None => 20,
        }),
        cursor is None && !r.truncated ==> forall|j: int|
            0 <= j < index.nodes.len() && (#[trigger] index.nodes[j].label@) == "Community"@
                ==> spec_community_listed(r.items@, index.nodes[j].id@),
{
    let mut rows: Vec<SortEntry> = Vec::new();
    let mut payload: Vec<CommunityItem> = Vec::new();
    let mut j: usize = 0;
    while j < index.nodes.len()
        invariant
            0 <= j <= index.nodes.len(),
            rows.len() == payload.len(),
            forall|t: int|
                0 <= t < rows.len() ==> {
                    &&& (#[trigger] rows[t]).idx == t
                    &&& rows[t].num <= SCORE_ONE
                    &&& rows[t].num == SCORE_ONE - payload[t].score_micro
                },
            forall|t: int|
                0 <= t < payload.len() ==> spec_community_item_matches(
                    #[trigger] payload[t],
                    index.nodes@,
                    index.community_membership@,
                ),
            forall|t: int|
                0 <= t < j && (#[trigger] index.nodes[t].label@) == "Community"@
                    ==> spec_community_listed(payload@, index.nodes[t].id@),
        decreases index.nodes.len() - j,
    {
        let node = &index.nodes[j];
        proof {
            assert(*node == index.nodes[j as int]);
        }
        if str_eq_str(node.label.as_str(), "Community") {
            let mut members: usize = 0;
            let mut m: usize = 0;
            proof {
                assert(index.community_membership@.take(0).len() == 0);
            }
            while m < index.community_membership.len()
                invariant
                    0 <= m <= index.community_membership.len(),
                    members <= m,
                    0 <= j < index.nodes.len(),
                    node == &index.nodes[j as int],
                    members == spec_member_count_of(
                        index.community_membership@.take(m as int),
                        index.nodes[j as int].id@,
                    ),
                decreases index.community_membership.len() - m,
            {
                proof {
                    assert(index.community_membership@.take(m as int + 1).last()
                        == index.community_membership@[m as int]);
                    assert(index.community_membership@.take(m as int + 1).drop_last()
                        =~= index.community_membership@.take(m as int));
                }
                if index.community_membership[m].community_id.eq(&node.id) {
                    members += 1;
                }
                m += 1;
            }
            proof {
                assert(index.community_membership@.take(index.community_membership.len() as int)
                    =~= index.community_membership@);
            }
            let capped: u64 = if members > 30 {
                30
            } else {
                members as u64
            };
            let score: u64 = 650000 + capped * 10000;
            let mut key = node.name.clone();
            key.append("::");
            key.append(node.id.as_str());
            let ghost payload0 = payload@;
            payload.push(
                CommunityItem {
                    community_id: node.id.clone(),
                    name: node.name.clone(),
                    uri: node.uri.clone(),
                    members,
                    score_micro: score,
                },
            );
            rows.push(SortEntry { num: SCORE_ONE - score, text: key, idx: payload.len() - 1 });
            proof {
                let n = payload.len() - 1;
                assert(forall|t: int| 0 <= t < n ==> (#[trigger] payload[t]) == payload0[t]);
                assert(spec_community_item_matches(
                    payload[n as int],
                    index.nodes@,
                    index.community_membership@,
                ));
                assert(payload[n as int].community_id@ == index.nodes[j as int].id@);
                assert(spec_community_listed(payload@, index.nodes[j as int].id@));
                assert forall|x: Seq<char>| spec_community_listed(payload0, x)
                    implies spec_community_listed(payload@, x) by {
                    let k = choose|k: int|
                        0 <= k < payload0.len() && (#[trigger] payload0[k].community_id@) == x;
                    assert(payload[k].community_id@ == x);
                }
            }
        }
        j += 1;
    }
    let lim = parse_limit(limit, 20, 100);
    let ghost rows0 = rows@;
    let had_cursor = cursor.is_some();
    let page = paginate_ranked(rows, lim, cursor);
    proof {
        crate::order::lemma_permutation_contains(rows0, page.all_sorted@);
        assert forall|t: int| 0 <= t < page.entries.len() implies {
            &&& (#[trigger] page.entries[t]).idx < payload.len()
            &&& page.entries[t].num == SCORE_ONE - payload[page.entries[t].idx as int].score_micro
        } by {
            let ss = page.all_sorted@;
            let start = page.start@;
            assert(page.entries@[t] == ss[start + t]);
            assert(ss.contains(ss[start + t]));
            let j0 = choose|j0: int| 0 <= j0 < rows0.len() && rows0[j0] == ss[start + t];
            assert(rows0[j0].idx == j0);
        }
    }
    let mut items: Vec<CommunityItem> = Vec::new();
    let mut k: usize = 0;
    while k < page.entries.len()
        invariant
            0 <= k <= page.entries.len(),
            items.len() == k,
            forall|t: int|
                0 <= t < page.entries.len() ==> {
                    &&& (#[trigger] page.entries[t]).idx < payload.len()
                    &&& page.entries[t].num == SCORE_ONE - payload[page.entries[t].idx as int].score_micro
                },
            forall|t: int|
                0 <= t < k ==> (#[trigger] items[t]) == payload[page.entries[t].idx as int],
        decreases page.entries.len() - k,
    {
        items.push(payload[page.entries[k].idx].clone());
        k += 1;
    }
    proof {
        let ss = page.all_sorted@;
        let start = page.start@;
        assert forall|i: int, j2: int| 0 <= i <= j2 < items.len() implies (
        #[trigger] items[i]).score_micro >= (#[trigger] items[j2]).score_micro by {
            assert(page.entries@[i] == ss[start + i]);
            assert(page.entries@[j2] == ss[start + j2]);
            assert(spec_entry_le(ss[start + i], ss[start + j2]));
        }
        if page.truncated {
            assert(page.entries.len() == lim);
        }
        if !had_cursor && !page.truncated {
            assert(page.start@ == 0);
            assert(page.entries@ =~= page.all_sorted@);
            assert forall|j2: int|
                0 <= j2 < index.nodes.len() && (#[trigger] index.nodes[j2].label@)
                    == "Community"@ implies spec_community_listed(
                items@,
                index.nodes[j2].id@,
            ) by {
                let t = choose|t: int|
                    0 <= t < payload@.len() && (#[trigger] payload@[t].community_id@)
                        == index.nodes[j2].id@;
                assert(rows0[t].idx == t);
                assert(page.all_sorted@.contains(rows0[t]));
                let p = choose|p: int|
                    0 <= p < page.all_sorted@.len() && page.all_sorted@[p] == rows0[t];
                assert(page.entries@[p] == page.all_sorted@[p]);
                assert(items[p] == payload[page.entries[p].idx as int]);
                assert(items[p] == payload[t as int]);
            }
        }
    }
    let mut factors: Vec<String> = Vec::new();
    factors.push(String::from_str("community_nodes"));
    factors.push(String::from_str("membership_index"));
    let confidence = confidence_block(900000, factors, Vec::new());
    CommunityListOutput {
        items,
        next_cursor: page.next_cursor,
        truncated: page.truncated,
        confidence,
    }
}


/// The node's normalized file path resolves the requested path: equal,
/// or ending with it.
pub open spec fn spec_path_matches(n: NodeRecord, fp: Seq<char>) -> bool {
    spec_path_norm(n.file_path@) == spec_path_norm(fp) || spec_ends_with(
        spec_path_norm(n.file_path@),
        spec_path_norm(fp),
    )
}

/// Some node of the resolved file matches the requested path.
pub open spec fn spec_resolved_file(
    nodes: Seq<NodeRecord>,
    fp: Seq<char>,
    resolved: Seq<char>,
) -> bool {
    exists|i: int|
        0 <= i < nodes.len() && (#[trigger] nodes[i].file_path@) == resolved
            && spec_path_matches(nodes[i], fp)
}

/// An outline entry mirrors a symbol-bearing node of the resolved file.
pub open spec fn spec_outline_item_sound(
    p: NodePayload,
    nodes: Seq<NodeRecord>,
    resolved: Seq<char>,
) -> bool {
    exists|i: int|
        0 <= i < nodes.len() && spec_node_payload(p, #[trigger] nodes[i])
            && nodes[i].file_path@ == resolved && spec_outline_label(nodes[i].label@)
}

/// An outline entry for this node identifier is present.
pub open spec fn spec_outline_listed(symbols: Seq<NodePayload>, id: Seq<char>) -> bool {
    exists|k: int| 0 <= k < symbols.len() && (#[trigger] symbols[k].id@) == id
}

/// Marker appended to a truncated snippet.
pub const TRUNCATION_MARKER: &'static str = "\n...[truncated]";

#[derive(Debug)]
pub struct FileSnippetOutput {
    pub node: NodePayload,
    pub snippet: String,
    pub max_chars: usize,
    pub confidence: ConfidenceBlock,
}

/// Bounded snippet of a resolved node's search text: at most `maxChars`
/// characters (clamped into 80..=8000, 1400 by default) plus the fixed
/// truncation marker.
pub fn tool_file_snippet(
    index: &CapsuleIndex,
    node_id: Option<String>,
    file_path: Option<String>,
    max_chars: Option<u64>,
) -> (r: Result<FileSnippetOutput, ToolError>)
    ensures
        r is Ok <==> ((node_id is Some && spec_node_known(index.nodes@, node_id.unwrap()@)) || (
        node_id is None && file_path is Some && exists|i: int|
            0 <= i < index.nodes.len() && spec_path_matches(
                (#[trigger] index.nodes[i]),
                file_path.unwrap()@,
            ))),
        match r {
            Ok(out) => {
                &&& out.max_chars == (match max_chars {
                    Some(v) => if v < 80 {
                        80int
                    } else if v > 8000 {
                        8000int
                    } else {
                        v as int
                    },
                    None => 1400,
                })
                &&& exists|i: int|
                    {
                        &&& 0 <= i < index.nodes.len()
                        &&& spec_node_payload(out.node, (#[trigger] index.nodes[i]))
                        &&& (node_id is Some ==> index.nodes[i].id@ == node_id.unwrap()@)
                        &&& (node_id is None && file_path is Some ==> {
                            let np = spec_path_norm(index.nodes[i].file_path@);
                            let fp = spec_path_norm(file_path.unwrap()@);
                            np == fp || spec_ends_with(np, fp)
                        })
                        &&& (if index.nodes[i].search_text@.len() > out.max_chars {
                            out.snippet@ == index.nodes[i].search_text@.take(out.max_chars as int)
                                + TRUNCATION_MARKER@
                        } else {
                            out.snippet@ == index.nodes[i].search_text@
                        })
                    }
                &&& out.snippet@.len() <= out.max_chars + TRUNCATION_MARKER@.len()
            },
            Err(e) => {
                &&& (e.kind == ToolErrorKind::InvalidArgument <==> (node_id is None && file_path
                    is None))
                &&& (e.kind == ToolErrorKind::NotFound || e.kind
                    == ToolErrorKind::InvalidArgument)
            },
        },
{
    let cap: usize = match max_chars {
        Some(v) => if v < 80 {
            80
        } else if v > 8000 {
            8000
        } else {
            v as usize
        },
        None => 1400,
    };
    let idx: usize = match &node_id {
        Some(id) => {
            match find_node_index(&index.nodes, id) {
                Some(i) => i,
                None => {
                    return Err(ToolError::not_found(String::from_str("nodeId not found")));
                },
            }
        },
        None => {
            let fp = match &file_path {
                Some(fp) => fp,
                None => {
                    return Err(
                        ToolError::invalid_argument(
                            String::from_str("nodeId or filePath is required"),
                        ),
                    );
                },
            };
            let normalized = normalize_path_like(fp.as_str());
            let mut found: Option<usize> = None;
            let mut i: usize = 0;
            while i < index.nodes.len()
                invariant
                    normalized@ == spec_path_norm(fp@),
                    0 <= i <= index.nodes.len(),
                    match found {
                        Some(f) => f < index.nodes.len() && spec_path_matches(
                            index.nodes[f as int],
                            fp@,
                        ),
                        None => forall|t: int|
                            0 <= t < i ==> !spec_path_matches((#[trigger] index.nodes[t]), fp@),
                    },
                decreases index.nodes.len() - i,
            {
                let np = normalize_path_like(index.nodes[i].file_path.as_str());
                if str_eq_str(np.as_str(), normalized.as_str()) || str_ends_with(
                    np.as_str(),
                    normalized.as_str(),
                ) {
                    found = Some(i);
                    i = index.nodes.len();
                } else {
                    i += 1;
                }
            }
            match found {
                Some(f) => f,
                None => {
                    return Err(
                        ToolError::not_found(
                            String::from_str("Could not resolve node or file for snippet"),
                        ),
                    );
                },
            }
        },
    };
    let node = &index.nodes[idx];
    let text_len = node.search_text.as_str().unicode_len();
    let snippet: String = if text_len > cap {
        let mut s = String::from_str(node.search_text.as_str().substring_char(0, cap));
        s.append(TRUNCATION_MARKER);
        s
    } else {
        node.search_text.clone()
    };
    proof {
        reveal_strlit("\n...[truncated]");
    }
    let payload = node_payload(node);
    let mut factors: Vec<String> = Vec::new();
    factors.push(String::from_str("indexed_search_text"));
    factors.push(String::from_str("bounded_payload"));
    let confidence = confidence_block(930000, factors, Vec::new());
    Ok(FileSnippetOutput { node: payload, snippet, max_chars: cap, confidence })
}

#[derive(Debug)]
pub struct FileOutlineOutput {
    pub file_path: String,
    pub symbols: Vec<NodePayload>,
    pub confidence: ConfidenceBlock,
}

/// A symbol-bearing label for a file outline.
pub open spec fn spec_outline_label(l: Seq<char>) -> bool {
    ||| l == "Function"@
    ||| l == "Method"@
    ||| l == "Class"@
    ||| l == "Interface"@
    ||| l == "Type"@
    ||| l == "Enum"@
    ||| l == "Variable"@
    ||| l == "File"@
}

fn outline_label(l: &str) -> (r: bool)
    ensures
        r == spec_outline_label(l@),
{
    str_eq_str(l, "Function") || str_eq_str(l, "Method") || str_eq_str(l, "Class") || str_eq_str(
        l,
        "Interface",
    ) || str_eq_str(l, "Type") || str_eq_str(l, "Enum") || str_eq_str(l, "Variable")
        || str_eq_str(l, "File")
}

/// Symbol-bearing nodes of a file, resolved by exact normalized path or
/// by suffix, sorted by start line then name; not-found if and only if no
/// node's path resolves the request, and complete over the resolved
/// file's symbol-bearing nodes.
#[verifier::rlimit(100)]
pub fn tool_file_outline(index: &CapsuleIndex, file_path: &String) -> (r: Result<
    FileOutlineOutput,
    ToolError,
>)
    ensures
        r is Ok <==> exists|i: int|
            0 <= i < index.nodes.len() && spec_path_matches(
                (#[trigger] index.nodes[i]),
                file_path@,
            ),
        match r {
            Ok(out) => {
                &&& spec_resolved_file(index.nodes@, file_path@, out.file_path@)
                &&& forall|i: int|
                    0 <= i < index.nodes.len() && (#[trigger] index.nodes[i].file_path@)
                        == out.file_path@ && spec_outline_label(index.nodes[i].label@)
                        ==> spec_outline_listed(out.symbols@, index.nodes[i].id@)
                &&& forall|k: int|
                    0 <= k < out.symbols.len() ==> spec_outline_item_sound(
                        (#[trigger] out.symbols[k]),
                        index.nodes@,
                        out.file_path@,
                    )
                &&& forall|i: int, j: int|
                    0 <= i <= j < out.symbols.len() ==> {
                        let a = (#[trigger] out.symbols[i]);
                        let b = (#[trigger] out.symbols[j]);
                        let al = (match a.start_line {
                            Some(v) => v as int,
                            None => 0,
                        });
                        let bl = (match b.start_line {
                            Some(v) => v as int,
                            None => 0,
                        });
                        al < bl || (al == bl && spec_lex_le(a.name@, b.name@))
                    }
            },
            Err(e) => e.kind == ToolErrorKind::NotFound,
        },
{
    let normalized = normalize_path_like(file_path.as_str());
    let mut found: Option<usize> = None;
    let mut i: usize = 0;
    while i < index.nodes.len()
        invariant
            normalized@ == spec_path_norm(file_path@),
            0 <= i <= index.nodes.len(),
            match found {
                Some(f) => f < index.nodes.len() && spec_path_matches(
                    index.nodes[f as int],
                    file_path@,
                ),
                None => forall|t: int|
                    0 <= t < i ==> !spec_path_matches((#[trigger] index.nodes[t]), file_path@),
            },
        decreases index.nodes.len() - i,
    {
        let np = normalize_path_like(index.nodes[i].file_path.as_str());
        if str_eq_str(np.as_str(), normalized.as_str()) || str_ends_with(
            np.as_str(),
            normalized.as_str(),
        ) {
            found = Some(i);
            i = index.nodes.len();
        } else {
            i += 1;
        }
    }
    let fidx = match found {
        Some(f) => f,
        None => {
            return Err(
                ToolError::not_found(String::from_str("No indexed nodes found for filePath")),
            );
        },
    };
    let resolved = index.nodes[fidx].file_path.clone();
    proof {
        assert(index.nodes[fidx as int].file_path@ == resolved@);
        assert(spec_path_matches(index.nodes[fidx as int], file_path@));
    }
    let mut payload: Vec<NodePayload> = Vec::new();
    let mut rows: Vec<SortEntry> = Vec::new();
    let mut j: usize = 0;
    while j < index.nodes.len()
        invariant
            0 <= j <= index.nodes.len(),
            rows.len() == payload.len(),
            resolved@ == index.nodes[fidx as int].file_path@,
            fidx < index.nodes.len(),
            forall|t: int|
                0 <= t < rows.len() ==> {
                    &&& (#[trigger] rows[t]).idx == t
                    &&& rows[t].num == (match payload[t].start_line {
                        Some(v) => v as int,
                        None => 0,
                    })
                    &&& rows[t].text@ == payload[t].name@
                },
            forall|t: int|
                0 <= t < payload.len() ==> spec_outline_item_sound(
                    (#[trigger] payload[t]),
                    index.nodes@,
                    resolved@,
                ),
            forall|t: int|
                0 <= t < j && (#[trigger] index.nodes[t].file_path@) == resolved@
                    && spec_outline_label(index.nodes[t].label@) ==> spec_outline_listed(
                    payload@,
                    index.nodes[t].id@,
                ),
        decreases index.nodes.len() - j,
    {
        let node = &index.nodes[j];
        proof {
            assert(*node == index.nodes[j as int]);
        }
        if node.file_path.eq(&resolved) && outline_label(node.label.as_str()) {
            let line_key: u64 = match node.start_line {
                Some(v) => if v as u64 > u64::MAX {
                    u64::MAX
                } else {
                    v as u64
                },
                None => 0,
            };
            let ghost payload0 = payload@;
            payload.push(node_payload(node));
            rows.push(
                SortEntry { num: line_key, text: node.name.clone(), idx: payload.len() - 1 },
            );
            proof {
                let n = payload.len() - 1;
                assert(forall|t: int| 0 <= t < n ==> (#[trigger] payload[t]) == payload0[t]);
                assert(spec_node_payload(payload[n as int], index.nodes[j as int]));
                assert(spec_outline_item_sound(payload[n as int], index.nodes@, resolved@));
                assert(payload[n as int].id@ == index.nodes[j as int].id@);
                assert(spec_outline_listed(payload@, index.nodes[j as int].id@));
                assert forall|x: Seq<char>| spec_outline_listed(payload0, x)
                    implies spec_outline_listed(payload@, x) by {
                    let k = choose|k: int|
                        0 <= k < payload0.len() && (#[trigger] payload0[k].id@) == x;
                    assert(payload[k].id@ == x);
                }
            }
        }
        j += 1;
    }
    let ghost rows0 = rows@;
    let sorted = sort_entries(rows);
    proof {
        crate::order::lemma_permutation_contains(rows0, sorted@);
        assert forall|t: int| 0 <= t < sorted.len() implies {
            &&& (#[trigger] sorted[t]).idx < payload.len()
            &&& sorted[t].num == (match payload[sorted[t].idx as int].start_line {
                Some(v) => v as int,
                None => 0,
            })
            &&& sorted[t].text@ == payload[sorted[t].idx as int].name@
        } by {
            assert(rows0.contains(sorted[t]));
            let j0 = choose|j0: int| 0 <= j0 < rows0.len() && rows0[j0] == sorted[t];
            assert(rows0[j0].idx == j0);
        }
    }
    let mut symbols: Vec<NodePayload> = Vec::new();
    let mut k: usize = 0;
    while k < sorted.len()
        invariant
            0 <= k <= sorted.len(),
            symbols.len() == k,
            forall|t: int|
                0 <= t < sorted.len() ==> {
                    &&& (#[trigger] sorted[t]).idx < payload.len()
                    &&& sorted[t].num == (match payload[sorted[t].idx as int].start_line {
                        Some(v) => v as int,
                        None => 0,
                    })
                    &&& sorted[t].text@ == payload[sorted[t].idx as int].name@
                },
            forall|t: int|
                0 <= t < k ==> (#[trigger] symbols[t]) == payload[sorted[t].idx as int],
        decreases sorted.len() - k,
    {
        symbols.push(payload[sorted[k].idx].clone());
        k += 1;
    }
    proof {
        assert forall|i2: int, j2: int| 0 <= i2 <= j2 < symbols.len() implies {
            let a = (#[trigger] symbols[i2]);
            let b = (#[trigger] symbols[j2]);
            let al = (match a.start_line {
                Some(v) => v as int,
                None => 0,
            });
            let bl = (match b.start_line {
                Some(v) => v as int,
                None => 0,
            });
            al < bl || (al == bl && spec_lex_le(a.name@, b.name@))
        } by {
            assert(spec_entry_le(sorted[i2], sorted[j2]));
            if sorted[i2].num == sorted[j2].num && sorted[i2].text@ == sorted[j2].text@ {
                crate::order::lemma_lex_refl(sorted[i2].text@);
            }
        }
        assert forall|j2: int|
            0 <= j2 < index.nodes.len() && (#[trigger] index.nodes[j2].file_path@) == resolved@
                && spec_outline_label(index.nodes[j2].label@) implies spec_outline_listed(
            symbols@,
            index.nodes[j2].id@,
        ) by {
            let t = choose|t: int|
                0 <= t < payload@.len() && (#[trigger] payload@[t].id@) == index.nodes[j2].id@;
            assert(rows0[t].idx == t);
            assert(sorted@.contains(rows0[t]));
            let p = choose|p: int| 0 <= p < sorted.len() && sorted[p] == rows0[t];
            assert(symbols[p] == payload[sorted[p].idx as int]);
            assert(symbols[p] == payload[t as int]);
        }
    }
    let mut factors: Vec<String> = Vec::new();
    factors.push(String::from_str("file_index"));
    factors.push(String::from_str("line_sorted_symbols"));
    let confidence = confidence_block(950000, factors, Vec::new());
    let out = FileOutlineOutput { file_path: resolved, symbols, confidence };
    proof {
        assert(index.nodes[fidx as int].file_path@ == out.file_path@);
        assert(spec_path_matches(index.nodes[fidx as int], file_path@));
        assert(spec_resolved_file(index.nodes@, file_path@, out.file_path@));
        assert forall|k: int| 0 <= k < out.symbols.len() implies spec_outline_item_sound(
            (#[trigger] out.symbols[k]),
            index.nodes@,
            out.file_path@,
        ) by {
            assert(out.symbols[k] == payload[sorted[k].idx as int]);
        }
        assert(forall|i: int|
            0 <= i < index.nodes.len() && (#[trigger] index.nodes[i].file_path@)
                == out.file_path@ && spec_outline_label(index.nodes[i].label@)
                ==> spec_outline_listed(out.symbols@, index.nodes[i].id@));
    }
    Ok(out)
}

/// The edge touches one of the impacted nodes.
pub open spec fn spec_edge_touches(e: EdgeRecord, items: Seq<NodePayload>) -> bool {
    exists|k: int|
        0 <= k < items.len() && ((#[trigger] items[k].id@) == e.source_id@ || items[k].id@
            == e.target_id@)
}

/// Number of edges touching an impacted node.
pub open spec fn spec_touch_count(edges: Seq<EdgeRecord>, items: Seq<NodePayload>) -> int
    decreases edges.len(),
{
    if edges.len() == 0 {
        0
    } else {
        spec_touch_count(edges.drop_last(), items) + if spec_edge_touches(
            edges.last(),
            items,
        ) {
            1int
        } else {
            0int
        }
    }
}

#[derive(Debug)]
pub struct ImpactOutput {
    pub root_node_id: String,
    pub max_depth: usize,
    pub impacted_nodes: Vec<NodePayload>,
    pub impacted_edge_count: usize,
    pub hotspots: Vec<HotspotRecord>,
    pub confidence: ConfidenceBlock,
}

/// Undirected reachability neighborhood of a node up to a depth cap
/// (default 3, at most 8): the impacted nodes sorted by name, and the top
/// ten hotspots.
pub fn tool_impact_analysis(
    index: &CapsuleIndex,
    node_id: &String,
    max_depth: Option<u64>,
) -> (r: Result<ImpactOutput, ToolError>)
    ensures
        match r {
            Ok(out) => {
                &&& exists|i: int|
                    0 <= i < index.nodes.len() && (#[trigger] index.nodes[i].id@) == node_id@
                &&& out.max_depth == (match max_depth {
                    Some(v) => if v < 1 {
                        1int
                    } else if v > 8 {
                        8int
                    } else {
                        v as int
                    },
                    None => 3,
                })
                &&& forall|k: int|
                    0 <= k < out.impacted_nodes.len() ==> spec_node_payload_sound(
                        (#[trigger] out.impacted_nodes[k]),
                        index.nodes@,
                    )
                &&& forall|i: int, j: int|
                    0 <= i <= j < out.impacted_nodes.len() ==> spec_lex_le(
                        (#[trigger] out.impacted_nodes[i]).name@,
                        (#[trigger] out.impacted_nodes[j]).name@,
                    )
                &&& out.impacted_edge_count == spec_touch_count(
                    index.edges@,
                    out.impacted_nodes@,
                )
                &&& out.hotspots.len() <= 10
                &&& out.hotspots.len() == (if index.hotspots.len() < 10 {
                    index.hotspots.len() as int
                } else {
                    10int
                })
                &&& forall|k: int|
                    0 <= k < out.hotspots.len() ==> (#[trigger] out.hotspots[k])
                        == index.hotspots[k]
            },
            Err(e) => e.kind == ToolErrorKind::NotFound && forall|i: int|
                0 <= i < index.nodes.len() ==> (#[trigger] index.nodes[i].id@) != node_id@,
        },
{
    if find_node_index(&index.nodes, node_id).is_none() {
        return Err(ToolError::not_found(String::from_str("nodeId not found")));
    }
    let cap: usize = match max_depth {
        Some(v) => if v < 1 {
            1
        } else if v > 8 {
            8
        } else {
            v as usize
        },
        None => 3,
    };
    let mut visited: Vec<String> = Vec::new();
    visited.push(node_id.clone());
    let mut frontier: Vec<String> = Vec::new();
    frontier.push(node_id.clone());
    let mut depth: usize = 0;
    while depth < cap
        invariant
            0 <= depth <= cap,
        decreases cap - depth,
    {
        let mut next: Vec<String> = Vec::new();
        let mut f: usize = 0;
        while f < frontier.len()
            invariant
                0 <= f <= frontier.len(),
            decreases frontier.len() - f,
        {
            let current = &frontier[f];
            let mut e: usize = 0;
            while e < index.edges.len()
                invariant
                    0 <= e <= index.edges.len(),
                    0 <= f < frontier.len(),
                decreases index.edges.len() - e,
            {
                let edge = &index.edges[e];
                if edge.source_id.eq(&frontier[f]) {
                    if !vec_str_contains(&visited, &edge.target_id) {
                        visited.push(edge.target_id.clone());
                        next.push(edge.target_id.clone());
                    }
                }
                if edge.target_id.eq(&frontier[f]) {
                    if !vec_str_contains(&visited, &edge.source_id) {
                        visited.push(edge.source_id.clone());
                        next.push(edge.source_id.clone());
                    }
                }
                e += 1;
            }
            f += 1;
        }
        if next.len() == 0 {
            depth = cap;
        } else {
            frontier = next;
            depth += 1;
        }
    }
    let mut payload: Vec<NodePayload> = Vec::new();
    let mut rows: Vec<SortEntry> = Vec::new();
    let mut v: usize = 0;
    while v < visited.len()
        invariant
            0 <= v <= visited.len(),
            rows.len() == payload.len(),
            forall|t: int|
                0 <= t < rows.len() ==> (#[trigger] rows[t]).idx == t && rows[t].num == 0
                    && rows[t].text@ == payload[t].name@,
            forall|t: int|
                0 <= t < payload.len() ==> spec_node_payload_sound(
                    (#[trigger] payload[t]),
                    index.nodes@,
                ),
        decreases visited.len() - v,
    {
        match find_node_index(&index.nodes, &visited[v]) {
            Some(i) => {
                let ghost payload0 = payload@;
                payload.push(node_payload(&index.nodes[i]));
                rows.push(
                    SortEntry {
                        num: 0,
                        text: index.nodes[i].name.clone(),
                        idx: payload.len() - 1,
                    },
                );
                proof {
                    let n = payload.len() - 1;
                    assert(forall|t: int|
                        0 <= t < n ==> (#[trigger] payload[t]) == payload0[t]);
                    assert(spec_node_payload(payload[n as int], index.nodes[i as int]));
                    assert(spec_node_payload_sound(payload[n as int], index.nodes@));
                }
            },
            None => {},
        }
        v += 1;
    }
    let ghost rows0 = rows@;
    let sorted = sort_entries(rows);
    proof {
        crate::order::lemma_permutation_contains(rows0, sorted@);
        assert forall|t: int| 0 <= t < sorted.len() implies {
            &&& (#[trigger] sorted[t]).idx < payload.len()
            &&& sorted[t].num == 0
            &&& sorted[t].text@ == payload[sorted[t].idx as int].name@
        } by {
            assert(rows0.contains(sorted[t]));
            let j0 = choose|j0: int| 0 <= j0 < rows0.len() && rows0[j0] == sorted[t];
            assert(rows0[j0].idx == j0);
        }
    }
    let mut impacted: Vec<NodePayload> = Vec::new();
    let mut k: usize = 0;
    while k < sorted.len()
        invariant
            0 <= k <= sorted.len(),
            impacted.len() == k,
            forall|t: int|
                0 <= t < sorted.len() ==> {
                    &&& (#[trigger] sorted[t]).idx < payload.len()
                    &&& sorted[t].num == 0
                    &&& sorted[t].text@ == payload[sorted[t].idx as int].name@
                },
            forall|t: int|
                0 <= t < k ==> (#[trigger] impacted[t]) == payload[sorted[t].idx as int],
        decreases sorted.len() - k,
    {
        impacted.push(payload[sorted[k].idx].clone());
        k += 1;
    }
    proof {
        assert forall|i2: int, j2: int| 0 <= i2 <= j2 < impacted.len() implies spec_lex_le(
            (#[trigger] impacted[i2]).name@,
            (#[trigger] impacted[j2]).name@,
        ) by {
            assert(spec_entry_le(sorted[i2], sorted[j2]));
            if sorted[i2].text@ == sorted[j2].text@ {
                crate::order::lemma_lex_refl(sorted[i2].text@);
            }
        }
    }
    let mut impacted_edge_count: usize = 0;
    let mut e2: usize = 0;
    proof {
        assert(index.edges@.take(0).len() == 0);
    }
    while e2 < index.edges.len()
        invariant
            0 <= e2 <= index.edges.len(),
            impacted_edge_count <= e2,
            impacted_edge_count == spec_touch_count(index.edges@.take(e2 as int), impacted@),
        decreases index.edges.len() - e2,
    {
        proof {
            assert(index.edges@.take(e2 as int + 1).last() == index.edges@[e2 as int]);
            assert(index.edges@.take(e2 as int + 1).drop_last() =~= index.edges@.take(
                e2 as int,
            ));
        }
        let mut touches = false;
        let mut t: usize = 0;
        while t < impacted.len()
            invariant
                0 <= t <= impacted.len(),
                0 <= e2 < index.edges.len(),
                touches == exists|k: int|
                    0 <= k < t && ((#[trigger] impacted[k].id@)
                        == index.edges[e2 as int].source_id@ || impacted[k].id@
                        == index.edges[e2 as int].target_id@),
            decreases impacted.len() - t,
        {
            let ghost t0 = t as int;
            if impacted[t].id.eq(&index.edges[e2].source_id) || impacted[t].id.eq(
                &index.edges[e2].target_id,
            ) {
                proof {
                    assert(impacted[t0].id@ == index.edges[e2 as int].source_id@
                        || impacted[t0].id@ == index.edges[e2 as int].target_id@);
                }
                touches = true;
                t = impacted.len();
                proof {
                    assert(0 <= t0 < t);
                    assert(exists|k: int|
                        0 <= k < t && ((#[trigger] impacted[k].id@)
                            == index.edges[e2 as int].source_id@ || impacted[k].id@
                            == index.edges[e2 as int].target_id@));
                }
            } else {
                t += 1;
            }
        }
        if touches {
            impacted_edge_count += 1;
        }
        proof {
            assert(spec_edge_touches(index.edges@[e2 as int], impacted@) == touches);
        }
        e2 += 1;
    }
    proof {
        assert(index.edges@.take(index.edges.len() as int) =~= index.edges@);
    }
    let hot_cap: usize = if index.hotspots.len() < 10 {
        index.hotspots.len()
    } else {
        10
    };
    let mut hotspots: Vec<HotspotRecord> = Vec::new();
    let mut h: usize = 0;
    while h < hot_cap
        invariant
            0 <= h <= hot_cap <= index.hotspots.len(),
            hotspots.len() == h,
            forall|t: int| 0 <= t < h ==> (#[trigger] hotspots[t]) == index.hotspots[t],
        decreases hot_cap - h,
    {
        hotspots.push(index.hotspots[h].clone());
        h += 1;
    }
    let mut factors: Vec<String> = Vec::new();
    factors.push(String::from_str("graph_reachability"));
    factors.push(String::from_str("deterministic_bfs"));
    let confidence = confidence_block(870000, factors, Vec::new());
    Ok(
        ImpactOutput {
            root_node_id: node_id.clone(),
            max_depth: cap,
            impacted_nodes: impacted,
            impacted_edge_count,
            hotspots,
            confidence,
        },
    )
}

#[derive(Debug)]
pub struct ManifestGetOutput {
    pub schema_version: String,
    pub generated_at_ms: u64,
    pub capsule_path: String,
    pub sidecar_path: String,
    pub manifest_json: Option<String>,
    pub capabilities: CapsuleCapabilities,
    pub node_count: usize,
    pub edge_count: usize,
    pub process_step_count: usize,
    pub fulltext_count: usize,
    pub symbol_count: usize,
    pub hotspot_count: usize,
    pub confidence: ConfidenceBlock,
}

/// Manifest, capabilities and table counts of the index.
pub fn tool_manifest_get(index: &CapsuleIndex) -> (r: ManifestGetOutput)
    ensures
        r.schema_version == index.schema_version,
        r.generated_at_ms == index.generated_at_ms,
        r.capsule_path == index.capsule_path,
        r.sidecar_path == index.sidecar_path,
        r.manifest_json == index.manifest_json,
        r.node_count == index.nodes.len(),
        r.edge_count == index.edges.len(),
        r.process_step_count == index.process_steps.len(),
        r.fulltext_count == index.fulltext.len(),
        r.symbol_count == index.symbols.len(),
        r.hotspot_count == index.hotspots.len(),
{
    let mut factors: Vec<String> = Vec::new();
    factors.push(String::from_str("manifest_frame"));
    factors.push(String::from_str("index_metadata"));
    let confidence = confidence_block(990000, factors, Vec::new());
    ManifestGetOutput {
        schema_version: index.schema_version.clone(),
        generated_at_ms: index.generated_at_ms,
        capsule_path: index.capsule_path.clone(),
        sidecar_path: index.sidecar_path.clone(),
        manifest_json: match &index.manifest_json {
            Some(m) => Some(m.clone()),
            None => None,
        },
        capabilities: CapsuleCapabilities {
            supports_semantic_fallback: index.capabilities.supports_semantic_fallback,
            has_ai_bible: index.capabilities.has_ai_bible,
            has_manifest: index.capabilities.has_manifest,
            node_count: index.capabilities.node_count,
            edge_count: index.capabilities.edge_count,
            fulltext_count: index.capabilities.fulltext_count,
        },
        node_count: index.nodes.len(),
        edge_count: index.edges.len(),
        process_step_count: index.process_steps.len(),
        fulltext_count: index.fulltext.len(),
        symbol_count: index.symbols.len(),
        hotspot_count: index.hotspots.len(),
        confidence,
    }
}

/// The recommended tool sequence for a task class.
pub open spec fn spec_recommended_tools(task_lower: Seq<char>) -> Seq<Seq<char>> {
    if spec_contains_seq(task_lower, "debug"@) || spec_contains_seq(task_lower, "root"@) {
        seq!["text_search"@, "symbol_lookup"@, "call_trace"@, "impact_analysis"@, "file_snippet"@]
    } else if spec_contains_seq(task_lower, "impact"@) || spec_contains_seq(
        task_lower,
        "change"@,
    ) {
        seq![
            "symbol_lookup"@,
            "node_get"@,
            "neighbors_get"@,
            "impact_analysis"@,
            "callers_of"@,
            "callees_of"@,
        ]
    } else if spec_contains_seq(task_lower, "arch"@) || spec_contains_seq(
        task_lower,
        "subsystem"@,
    ) {
        seq![
            "community_list"@,
            "process_list"@,
            "process_get"@,
            "neighbors_get"@,
            "manifest_get"@,
        ]
    } else {
        seq!["text_search"@, "symbol_lookup"@, "node_get"@, "neighbors_get"@, "file_outline"@]
    }
}

#[derive(Debug)]
pub struct QueryExplainOutput {
    pub task: String,
    pub recommended_tools: Vec<String>,
    pub confidence: ConfidenceBlock,
}

/// Rule-based routing: recommends a tool sequence by task class, decided
/// on case-insensitive markers inside the task text.
pub fn tool_query_explain(task: Option<String>) -> (r: QueryExplainOutput)
    ensures
        r.recommended_tools@.map_values(|s: String| s@) == spec_recommended_tools(
            match task {
                Some(t) => spec_ascii_lower(t@),
                None => "general"@,
            },
        ),
{
    let lowered: String = match &task {
        Some(t) => ascii_lower(t.as_str()),
        None => String::from_str("general"),
    };
    proof {
        reveal_strlit("general");
    }
    let mut tools: Vec<String> = Vec::new();
    if str_contains(lowered.as_str(), "debug") || str_contains(lowered.as_str(), "root") {
        tools.push(String::from_str("text_search"));
        tools.push(String::from_str("symbol_lookup"));
        tools.push(String::from_str("call_trace"));
        tools.push(String::from_str("impact_analysis"));
        tools.push(String::from_str("file_snippet"));
    } else if str_contains(lowered.as_str(), "impact") || str_contains(
        lowered.as_str(),
        "change",
    ) {
        tools.push(String::from_str("symbol_lookup"));
        tools.push(String::from_str("node_get"));
        tools.push(String::from_str("neighbors_get"));
        tools.push(String::from_str("impact_analysis"));
        tools.push(String::from_str("callers_of"));
        tools.push(String::from_str("callees_of"));
    } else if str_contains(lowered.as_str(), "arch") || str_contains(
        lowered.as_str(),
        "subsystem",
    ) {
        tools.push(String::from_str("community_list"));
        tools.push(String::from_str("process_list"));
        tools.push(String::from_str("process_get"));
        tools.push(String::from_str("neighbors_get"));
        tools.push(String::from_str("manifest_get"));
    } else {
        tools.push(String::from_str("text_search"));
        tools.push(String::from_str("symbol_lookup"));
        tools.push(String::from_str("node_get"));
        tools.push(String::from_str("neighbors_get"));
        tools.push(String::from_str("file_outline"));
    }
    proof {
        assert(tools@.map_values(|s: String| s@) =~= spec_recommended_tools(
            match task {
                Some(t) => spec_ascii_lower(t@),
                None => "general"@,
            },
        ));
    }
    let mut factors: Vec<String> = Vec::new();
    factors.push(String::from_str("rule_based_routing"));
    factors.push(String::from_str("deterministic_playbook"));
    let confidence = confidence_block(890000, factors, Vec::new());
    QueryExplainOutput { task: lowered, recommended_tools: tools, confidence }
}

} // verus!
