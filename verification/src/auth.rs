//! Bearer authentication: extracting the token from a header value and
//! the key comparison.
use vstd::prelude::*;
use vstd::string::*;

use crate::strutil::{spec_starts_with, spec_trimmed, str_starts_with, str_suffix, trim_blanks};

verus! {

/// The token of an authorization header value: the text after the
/// `Bearer ` marker; absent unless the value carries that marker.
pub fn extract_bearer_token(header_value: &str) -> (r: Option<String>)
    ensures
        match r {
            Some(t) => spec_starts_with(header_value@, "Bearer "@) && t@ == header_value@.skip(
                "Bearer "@.len() as int,
            ),
            None => !spec_starts_with(header_value@, "Bearer "@),
        },
{
    proof {
        reveal_strlit("Bearer ");
    }
    if str_starts_with(header_value, "Bearer ") {
        let n = header_value.unicode_len();
        proof {
            assert("Bearer "@.len() == 7);
        }
        Some(str_suffix(header_value, 7))
    } else {
        None
    }
}

/// Whether a presented token, with surrounding blanks removed, equals the
/// configured key. The comparison walks the whole common length and folds
/// every character difference into one flag, so its running time does not
/// depend on where a wrong key first differs.
pub fn verify_key(token: &str, expected_key: &str) -> (r: bool)
    ensures
        r == (spec_trimmed(token@) == expected_key@),
{
    let trimmed = trim_blanks(token);
    let a = trimmed.as_str();
    let na = a.unicode_len();
    let nb = expected_key.unicode_len();
    let shorter: usize = if na < nb {
        na
    } else {
        nb
    };
    let mut differs = na != nb;
    let mut i: usize = 0;
    while i < shorter
        invariant
            na == a@.len(),
            nb == expected_key@.len(),
            shorter == if na < nb {
                na as int
            } else {
                nb as int
            },
            0 <= i <= shorter,
            differs == (na != nb || exists|k: int|
                0 <= k < i && (#[trigger] a@[k]) != expected_key@[k]),
        decreases shorter - i,
    {
        let c1 = a.get_char(i);
        let c2 = expected_key.get_char(i);
        differs = differs || c1 != c2;
        i += 1;
    }
    proof {
        if !differs {
            assert(forall|k: int| 0 <= k < a@.len() ==> (#[trigger] a@[k]) == expected_key@[k]);
            assert(a@ =~= expected_key@);
        } else {
            assert(a@ != expected_key@);
        }
    }
    !differs
}

} // verus!
