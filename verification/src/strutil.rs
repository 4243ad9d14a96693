//! Character-level string helpers: normalization, digit rendering and
//! parsing, prefix and substring tests.
//!
//! Text normalization replaces every character that is not an ASCII letter,
//! digit or underscore with a space, lowercases ASCII letters, collapses
//! whitespace runs into single spaces and trims the ends.
use vstd::prelude::*;
use vstd::string::*;

verus! {

/// Relies on String::push: appends one character at the end.
#[verifier::external_body]
pub(crate) fn push_char(s: &mut String, c: char)
    ensures
        final(s)@ == old(s)@ + seq![c],
{
    s.push(c);
}

/// A word character survives normalization: ASCII letter, digit, underscore.
pub open spec fn spec_word_char(c: char) -> bool {
    (c as u32 >= 97 && c as u32 <= 122) || (c as u32 >= 65 && c as u32 <= 90) || (c as u32 >= 48
        && c as u32 <= 57) || c == '_'
}

/// ASCII uppercase folded to lowercase; all else unchanged.
pub open spec fn spec_to_lower(c: char) -> char {
    if c as u32 >= 65 && c as u32 <= 90 {
        (((c as u32) + 32) as u8) as char
    } else {
        c
    }
}

/// Per-character normalization step.
pub open spec fn spec_mapped(c: char) -> char {
    if spec_word_char(c) {
        spec_to_lower(c)
    } else {
        ' '
    }
}

/// Left-to-right normalization: map each character, then join the word runs
/// with single spaces. `pending` records that a space is owed before the
/// next word character.
pub open spec fn spec_norm_from(s: Seq<char>, pending: bool, acc: Seq<char>) -> Seq<char>
    decreases s.len(),
{
    if s.len() == 0 {
        acc
    } else {
        let c = spec_mapped(s[0]);
        if c == ' ' {
            spec_norm_from(s.drop_first(), acc.len() > 0, acc)
        } else {
            spec_norm_from(
                s.drop_first(),
                false,
                if pending {
                    acc + seq![' ', c]
                } else {
                    acc.push(c)
                },
            )
        }
    }
}

/// The normalized form of a character sequence.
pub open spec fn spec_normalized(s: Seq<char>) -> Seq<char> {
    spec_norm_from(s, false, Seq::empty())
}

fn exec_mapped(c: char) -> (r: char)
    ensures
        r == spec_mapped(c),
{
    let u = c as u32;
    if (u >= 97 && u <= 122) || (u >= 48 && u <= 57) || c == '_' {
        c
    } else if u >= 65 && u <= 90 {
        ((u + 32) as u8) as char
    } else {
        ' '
    }
}

/// Replaces non-word characters with spaces, lowercases, collapses
/// whitespace runs and trims: the normal form used for symbols and for
/// lexical search terms.
pub fn normalize_text(input: &str) -> (r: String)
    ensures
        r@ == spec_normalized(input@),
{
    let n = input.unicode_len();
    let mut out = String::new();
    let mut pending = false;
    let mut i: usize = 0;
    proof {
        assert(input@.skip(0) =~= input@);
    }
    while i < n
        invariant
            n == input@.len(),
            0 <= i <= n,
            spec_normalized(input@) == spec_norm_from(input@.skip(i as int), pending, out@),
            pending ==> out@.len() > 0,
        decreases n - i,
    {
        let ghost pre = input@.skip(i as int);
        let ghost out0 = out@;
        let ghost p0 = pending;
        let c = input.get_char(i);
        let m = exec_mapped(c);
        proof {
            assert(pre[0] == input@[i as int]);
            assert(pre.drop_first() =~= input@.skip(i as int + 1));
        }
        if m == ' ' {
            if out.unicode_len() > 0 {
                pending = true;
            }
            proof {
                assert(spec_norm_from(pre, p0, out0) == spec_norm_from(
                    input@.skip(i as int + 1),
                    pending,
                    out@,
                ));
            }
        } else {
            if pending {
                push_char(&mut out, ' ');
            }
            push_char(&mut out, m);
            pending = false;
            proof {
                if p0 {
                    assert(out@ =~= out0 + seq![' ', m]);
                } else {
                    assert(out@ =~= out0.push(m));
                }
                assert(spec_norm_from(pre, p0, out0) == spec_norm_from(
                    input@.skip(i as int + 1),
                    pending,
                    out@,
                ));
            }
        }
        i += 1;
    }
    proof {
        assert(input@.skip(n as int) =~= Seq::<char>::empty());
    }
    out
}

pub open spec fn spec_digit_char(d: int) -> char {
    ((48 + d) as u8) as char
}

fn digit_char(d: u64) -> (r: char)
    requires
        d < 10,
    ensures
        r == spec_digit_char(d as int),
{
    ((48 + d as u8)) as char
}

/// Decimal rendering of a non-negative integer, most significant digit
/// first, without leading zeros (a lone zero for zero).
pub open spec fn spec_decimal(n: int) -> Seq<char>
    decreases n,
{
    if n < 10 {
        seq![spec_digit_char(if n < 0 {
            0
        } else {
            n
        })]
    } else {
        spec_decimal(n / 10) + seq![spec_digit_char(n % 10)]
    }
}

/// Renders an integer in decimal.
pub fn u64_to_string(n: u64) -> (s: String)
    ensures
        s@ == spec_decimal(n as int),
    decreases n,
{
    if n < 10 {
        let mut s = String::new();
        push_char(&mut s, digit_char(n));
        s
    } else {
        let mut s = u64_to_string(n / 10);
        push_char(&mut s, digit_char(n % 10));
        s
    }
}

pub fn usize_to_string(n: usize) -> (s: String)
    ensures
        s@ == spec_decimal(n as int),
{
    u64_to_string(n as u64)
}

/// `n` zero characters.
pub open spec fn spec_zeros_of(n: int) -> Seq<char>
    decreases n,
{
    if n <= 0 {
        Seq::empty()
    } else {
        spec_zeros_of(n - 1).push('0')
    }
}

pub open spec fn spec_is_digit(c: char) -> bool {
    c as u32 >= 48 && c as u32 <= 57
}

pub open spec fn spec_all_digits(s: Seq<char>) -> bool {
    forall|i: int| 0 <= i < s.len() ==> spec_is_digit(#[trigger] s[i])
}

/// Numeric value of a digit string (most significant first).
pub open spec fn spec_digits_val(s: Seq<char>) -> int
    decreases s.len(),
{
    if s.len() == 0 {
        0
    } else {
        spec_digits_val(s.drop_last()) * 10 + (s.last() as u32 - 48)
    }
}

/// The meaning of parsing an unsigned decimal: defined only for non-empty
/// all-digit strings whose value fits.
pub open spec fn spec_parse_u64(s: Seq<char>) -> Option<int> {
    if s.len() > 0 && spec_all_digits(s) && spec_digits_val(s) <= u64::MAX {
        Some(spec_digits_val(s))
    } else {
        None
    }
}

proof fn lemma_digits_val_grows(s: Seq<char>, i: int)
    requires
        0 <= i <= s.len(),
        spec_all_digits(s),
    ensures
        spec_digits_val(s.subrange(0, i)) <= spec_digits_val(s),
    decreases s.len() - i,
{
    if i < s.len() {
        let a = s.subrange(0, i);
        let b = s.subrange(0, i + 1);
        assert(b.drop_last() =~= a);
        assert(b.last() == s[i]);
        assert(spec_is_digit(s[i]));
        assert(spec_digits_val(b) == spec_digits_val(a) * 10 + (s[i] as u32 - 48));
        assert(spec_all_digits(a)) by {
            assert(forall|k: int| 0 <= k < a.len() ==> (#[trigger] a[k]) == s[k]);
        }
        assert(spec_digits_val(a) >= 0) by {
            lemma_digits_val_nonneg(a);
        }
        assert(spec_digits_val(a) <= spec_digits_val(b));
        lemma_digits_val_grows(s, i + 1);
        assert(s.subrange(0, s.len() as int) =~= s);
    } else {
        assert(s.subrange(0, i) =~= s);
    }
}

proof fn lemma_digits_val_nonneg(s: Seq<char>)
    ensures
        spec_digits_val(s) >= 0 || !spec_all_digits(s),
    decreases s.len(),
{
    if s.len() > 0 {
        lemma_digits_val_nonneg(s.drop_last());
        if spec_all_digits(s) {
            assert(spec_all_digits(s.drop_last())) by {
                assert(forall|i: int|
                    0 <= i < s.len() - 1 ==> spec_is_digit(#[trigger] s.drop_last()[i]));
            }
        }
    }
}

/// A parsed decimal value is never negative.
pub proof fn lemma_parse_nonneg(s: Seq<char>)
    ensures
        spec_parse_u64(s) is Some ==> spec_parse_u64(s).unwrap() >= 0,
{
    if s.len() > 0 && spec_all_digits(s) && spec_digits_val(s) <= u64::MAX {
        lemma_digits_val_nonneg(s);
    }
}

/// Parses an unsigned decimal; `None` on an empty string, a non-digit, or
/// a value past `u64::MAX`.
pub fn parse_u64(s: &str) -> (r: Option<u64>)
    ensures
        r == match spec_parse_u64(s@) {
            Some(v) => Some(v as u64),
            None => None::<u64>,
        },
{
    let n = s.unicode_len();
    if n == 0 {
        return None;
    }
    let mut acc: u64 = 0;
    let mut i: usize = 0;
    while i < n
        invariant
            n == s@.len(),
            0 < n,
            0 <= i <= n,
            spec_all_digits(s@.subrange(0, i as int)),
            acc == spec_digits_val(s@.subrange(0, i as int)),
        decreases n - i,
    {
        let c = s.get_char(i);
        let u = c as u32;
        if !(u >= 48 && u <= 57) {
            return None;
        }
        let d: u64 = (u - 48) as u64;
        if acc > (u64::MAX - d) / 10 {
            proof {
                let pre = s@.subrange(0, i as int + 1);
                assert(pre.drop_last() =~= s@.subrange(0, i as int));
                assert(pre.last() == s@[i as int]);
                assert(spec_digits_val(pre) == acc * 10 + d);
                assert(spec_digits_val(pre) > u64::MAX);
                if spec_all_digits(s@) {
                    lemma_digits_val_grows(s@, i as int + 1);
                }
            }
            return None;
        }
        proof {
            let pre = s@.subrange(0, i as int + 1);
            assert(pre.drop_last() =~= s@.subrange(0, i as int));
            assert(pre.last() == s@[i as int]);
        }
        acc = acc * 10 + d;
        i += 1;
    }
    proof {
        assert(s@.subrange(0, n as int) =~= s@);
    }
    Some(acc)
}

/// Character-sequence equality of two string slices.
pub fn str_eq_str(a: &str, b: &str) -> (r: bool)
    ensures
        r == (a@ == b@),
{
    let na = a.unicode_len();
    let nb = b.unicode_len();
    if na != nb {
        return false;
    }
    let mut i: usize = 0;
    while i < na
        invariant
            na == a@.len(),
            na == b@.len(),
            0 <= i <= na,
            forall|k: int| 0 <= k < i ==> a@[k] == b@[k],
        decreases na - i,
    {
        if a.get_char(i) != b.get_char(i) {
            return false;
        }
        i += 1;
    }
    proof {
        assert(a@ =~= b@);
    }
    true
}

/// Whether `p` is a prefix of `s`.
pub open spec fn spec_starts_with(s: Seq<char>, p: Seq<char>) -> bool {
    s.len() >= p.len() && s.subrange(0, p.len() as int) == p
}

pub fn str_starts_with(s: &str, p: &str) -> (r: bool)
    ensures
        r == spec_starts_with(s@, p@),
{
    let ns = s.unicode_len();
    let np = p.unicode_len();
    if ns < np {
        proof {
            assert(!spec_starts_with(s@, p@));
        }
        return false;
    }
    let mut i: usize = 0;
    while i < np
        invariant
            ns == s@.len(),
            np == p@.len(),
            np <= ns,
            0 <= i <= np,
            forall|k: int| 0 <= k < i ==> s@[k] == p@[k],
        decreases np - i,
    {
        if s.get_char(i) != p.get_char(i) {
            proof {
                assert(s@.subrange(0, np as int)[i as int] != p@[i as int]);
            }
            return false;
        }
        i += 1;
    }
    proof {
        assert(s@.subrange(0, np as int) =~= p@);
    }
    true
}

/// Whether `needle` occurs as a contiguous run inside `s`.
pub open spec fn spec_contains_seq(s: Seq<char>, needle: Seq<char>) -> bool {
    exists|i: int|
        0 <= i && i + needle.len() <= s.len() && (#[trigger] s.subrange(i, i + needle.len()))
            == needle
}

pub fn str_contains(s: &str, needle: &str) -> (r: bool)
    ensures
        r == spec_contains_seq(s@, needle@),
{
    let ns = s.unicode_len();
    let nn = needle.unicode_len();
    if nn > ns {
        return false;
    }
    let mut i: usize = 0;
    while i <= ns - nn
        invariant
            ns == s@.len(),
            nn == needle@.len(),
            nn <= ns,
            0 <= i <= ns - nn + 1,
            forall|k: int|
                0 <= k < i ==> (#[trigger] s@.subrange(k, k + needle@.len() as int)) != needle@,
        decreases ns - nn - i + 1,
    {
        let mut j: usize = 0;
        let mut matched = true;
        let ghost mut mism: int = 0;
        while j < nn
            invariant
                ns == s@.len(),
                nn == needle@.len(),
                0 <= j <= nn,
                i + nn <= ns,
                matched ==> forall|k: int| 0 <= k < j ==> s@[i + k] == needle@[k],
                !matched ==> 0 <= mism < nn && s@[i + mism] != needle@[mism],
            decreases nn - j,
        {
            if s.get_char(i + j) != needle.get_char(j) {
                matched = false;
                proof {
                    mism = j as int;
                }
                j = nn;
            } else {
                j += 1;
            }
        }
        if matched {
            proof {
                assert(s@.subrange(i as int, i + nn as int) =~= needle@);
            }
            return true;
        }
        proof {
            assert(s@.subrange(i as int, i + nn as int)[mism] != needle@[mism]);
            assert(s@.subrange(i as int, i + nn as int) != needle@);
        }
        i += 1;
    }
    false
}

/// First position where `needle` occurs in `s`, if any.
pub fn find_sub(s: &str, needle: &str) -> (r: Option<usize>)
    ensures
        match r {
            Some(i) => {
                &&& i + needle@.len() <= s@.len()
                &&& s@.subrange(i as int, i + needle@.len()) == needle@
                &&& forall|k: int|
                    0 <= k < i ==> (#[trigger] s@.subrange(k, k + needle@.len() as int))
                        != needle@
            },
            None => !spec_contains_seq(s@, needle@),
        },
{
    let ns = s.unicode_len();
    let nn = needle.unicode_len();
    if nn > ns {
        return None;
    }
    let mut i: usize = 0;
    while i <= ns - nn
        invariant
            ns == s@.len(),
            nn == needle@.len(),
            nn <= ns,
            0 <= i <= ns - nn + 1,
            forall|k: int|
                0 <= k < i ==> (#[trigger] s@.subrange(k, k + needle@.len() as int)) != needle@,
        decreases ns - nn - i + 1,
    {
        let mut j: usize = 0;
        let mut matched = true;
        let ghost mut mism: int = 0;
        while j < nn
            invariant
                ns == s@.len(),
                nn == needle@.len(),
                0 <= j <= nn,
                i + nn <= ns,
                matched ==> forall|k: int| 0 <= k < j ==> s@[i + k] == needle@[k],
                !matched ==> 0 <= mism < nn && s@[i + mism] != needle@[mism],
            decreases nn - j,
        {
            if s.get_char(i + j) != needle.get_char(j) {
                matched = false;
                proof {
                    mism = j as int;
                }
                j = nn;
            } else {
                j += 1;
            }
        }
        if matched {
            proof {
                assert(s@.subrange(i as int, i + nn as int) =~= needle@);
            }
            return Some(i);
        }
        proof {
            assert(s@.subrange(i as int, i + nn as int)[mism] != needle@[mism]);
            assert(s@.subrange(i as int, i + nn as int) != needle@);
        }
        i += 1;
    }
    None
}

/// The characters of `s` from `from` on.
pub fn str_suffix(s: &str, from: usize) -> (r: String)
    requires
        from <= s@.len(),
    ensures
        r@ == s@.skip(from as int),
{
    let n = s.unicode_len();
    let sub = s.substring_char(from, n);
    proof {
        assert(s@.subrange(from as int, n as int) =~= s@.skip(from as int));
    }
    String::from_str(sub)
}


/// Position of the first newline at or after `i`, or the end of `s`.
pub open spec fn spec_line_end(s: Seq<char>, i: int) -> int
    decreases s.len() - i,
{
    if i >= s.len() {
        i
    } else if s[i] == '\n' {
        i
    } else {
        spec_line_end(s, i + 1)
    }
}

pub proof fn lemma_line_end_bounds(s: Seq<char>, i: int)
    requires
        0 <= i <= s.len(),
    ensures
        i <= spec_line_end(s, i) <= s.len(),
    decreases s.len() - i,
{
    if i < s.len() && s[i] != '\n' {
        lemma_line_end_bounds(s, i + 1);
    }
}

/// The value after `prefix` on the first line starting with `prefix`, the
/// scan beginning at line start `i`.
pub open spec fn spec_find_line_value(s: Seq<char>, prefix: Seq<char>, i: int) -> Option<
    Seq<char>,
>
    decreases s.len() - i,
{
    if i >= s.len() || i < 0 {
        None
    } else {
        let j = spec_line_end(s, i);
        let nj = if j < i {
            i + 1
        } else {
            j + 1
        };
        let line = s.subrange(i, if j < i {
            i
        } else {
            j
        });
        if spec_starts_with(line, prefix) {
            Some(line.skip(prefix.len() as int))
        } else if nj > s.len() {
            None
        } else {
            spec_find_line_value(s, prefix, nj)
        }
    }
}

fn line_end(s: &str, i: usize, n: usize) -> (r: usize)
    requires
        n == s@.len(),
        i <= n,
    ensures
        r == spec_line_end(s@, i as int),
        i <= r <= n,
{
    let mut j = i;
    while j < n && s.get_char(j) != '\n'
        invariant
            n == s@.len(),
            i <= j <= n,
            spec_line_end(s@, i as int) == spec_line_end(s@, j as int),
        decreases n - j,
    {
        j += 1;
    }
    j
}

/// The value after `prefix=`-style markers: the text after `prefix` on the
/// first line that begins with `prefix`.
pub fn find_line_value(s: &str, prefix: &str) -> (r: Option<String>)
    ensures
        match r {
            Some(v) => spec_find_line_value(s@, prefix@, 0) == Some(v@),
            None => spec_find_line_value(s@, prefix@, 0) is None,
        },
{
    let n = s.unicode_len();
    let np = prefix.unicode_len();
    let mut i: usize = 0;
    while i < n
        invariant
            n == s@.len(),
            np == prefix@.len(),
            0 <= i <= n,
            spec_find_line_value(s@, prefix@, 0) == spec_find_line_value(s@, prefix@, i as int),
        decreases n - i,
    {
        let j = line_end(s, i, n);
        let line = s.substring_char(i, j);
        proof {
            assert(line@ == s@.subrange(i as int, j as int));
        }
        if str_starts_with(line, prefix) {
            let v = str_suffix(line, np);
            proof {
                assert(v@ == s@.subrange(i as int, j as int).skip(np as int));
            }
            return Some(v);
        }
        proof {
            lemma_line_end_bounds(s@, i as int);
        }
        if j >= n {
            proof {
                assert(spec_find_line_value(s@, prefix@, i as int) is None);
            }
            return None;
        }
        i = j + 1;
    }
    None
}


pub open spec fn spec_is_blank(c: char) -> bool {
    c == ' ' || c == '\t' || c == '\r' || c == '\n'
}

pub open spec fn spec_trim_start(s: Seq<char>) -> Seq<char>
    decreases s.len(),
{
    if s.len() > 0 && spec_is_blank(s[0]) {
        spec_trim_start(s.drop_first())
    } else {
        s
    }
}

pub open spec fn spec_trim_end(s: Seq<char>) -> Seq<char>
    decreases s.len(),
{
    if s.len() > 0 && spec_is_blank(s.last()) {
        spec_trim_end(s.drop_last())
    } else {
        s
    }
}

/// The sequence with leading and trailing blanks removed.
pub open spec fn spec_trimmed(s: Seq<char>) -> Seq<char> {
    spec_trim_end(spec_trim_start(s))
}

fn is_blank(c: char) -> (r: bool)
    ensures
        r == spec_is_blank(c),
{
    c == ' ' || c == '\t' || c == '\r' || c == '\n'
}

/// Removes leading and trailing blanks (space, tab, carriage return,
/// newline).
pub fn trim_blanks(s: &str) -> (r: String)
    ensures
        r@ == spec_trimmed(s@),
{
    let n = s.unicode_len();
    let mut a: usize = 0;
    proof {
        assert(s@.skip(0) =~= s@);
    }
    while a < n && is_blank(s.get_char(a))
        invariant
            n == s@.len(),
            0 <= a <= n,
            spec_trim_start(s@) == spec_trim_start(s@.skip(a as int)),
        decreases n - a,
    {
        proof {
            assert(s@.skip(a as int)[0] == s@[a as int]);
            assert(s@.skip(a as int).drop_first() =~= s@.skip(a as int + 1));
        }
        a += 1;
    }
    proof {
        if a < n {
            assert(s@.skip(a as int)[0] == s@[a as int]);
            assert(spec_trim_start(s@) == s@.skip(a as int));
        } else {
            assert(s@.skip(a as int).len() == 0);
            assert(spec_trim_start(s@) =~= s@.skip(a as int));
        }
    }
    let mut b: usize = n;
    let ghost st = s@.skip(a as int);
    while b > a && is_blank(s.get_char(b - 1))
        invariant
            n == s@.len(),
            0 <= a <= b <= n,
            st == s@.skip(a as int),
            spec_trim_start(s@) == st,
            spec_trim_end(st) == spec_trim_end(s@.subrange(a as int, b as int)),
        decreases b,
    {
        proof {
            let cur = s@.subrange(a as int, b as int);
            assert(cur.last() == s@[b - 1]);
            assert(cur.drop_last() =~= s@.subrange(a as int, b as int - 1));
        }
        b -= 1;
    }
    proof {
        let cur = s@.subrange(a as int, b as int);
        if b > a {
            assert(cur.last() == s@[b - 1]);
            assert(spec_trim_end(cur) == cur);
        } else {
            assert(cur.len() == 0);
            assert(spec_trim_end(cur) =~= cur);
        }
    }
    let out = s.substring_char(a, b);
    String::from_str(out)
}


/// Whether `p` is a suffix of `s`.
pub open spec fn spec_ends_with(s: Seq<char>, p: Seq<char>) -> bool {
    s.len() >= p.len() && s.skip(s.len() - p.len()) == p
}

pub fn str_ends_with(s: &str, p: &str) -> (r: bool)
    ensures
        r == spec_ends_with(s@, p@),
{
    let ns = s.unicode_len();
    let np = p.unicode_len();
    if ns < np {
        return false;
    }
    let tail = s.substring_char(ns - np, ns);
    proof {
        assert(tail@ =~= s@.skip(s@.len() - p@.len()));
    }
    str_eq_str(tail, p)
}

/// ASCII lowercase of every character.
pub open spec fn spec_ascii_lower(s: Seq<char>) -> Seq<char> {
    s.map_values(|c: char| spec_to_lower(c))
}

pub fn ascii_lower(s: &str) -> (r: String)
    ensures
        r@ == spec_ascii_lower(s@),
{
    let n = s.unicode_len();
    let mut out = String::new();
    let mut i: usize = 0;
    while i < n
        invariant
            n == s@.len(),
            0 <= i <= n,
            out@ =~= spec_ascii_lower(s@.take(i as int)),
        decreases n - i,
    {
        let c = s.get_char(i);
        let u = c as u32;
        let m: char = if u >= 65 && u <= 90 {
            ((u + 32) as u8) as char
        } else {
            c
        };
        push_char(&mut out, m);
        proof {
            assert(out@ =~= spec_ascii_lower(s@.take(i as int + 1)));
        }
        i += 1;
    }
    proof {
        assert(s@.take(n as int) =~= s@);
        assert(out@ =~= spec_ascii_lower(s@));
    }
    out
}


/// Every character of a decimal rendering is a digit.
pub proof fn lemma_decimal_all_digits(n: int)
    requires
        n >= 0,
    ensures
        spec_all_digits(spec_decimal(n)),
        forall|p: int|
            0 <= p < spec_decimal(n).len() ==> 48 <= (#[trigger] spec_decimal(n)[p]) as u32
                <= 57,
    decreases n,
{
    assert(forall|d: int| 0 <= d < 10 ==> (#[trigger] spec_digit_char(d)) as u32 == 48 + d);
    if n < 10 {
        assert(spec_decimal(n) =~= seq![spec_digit_char(n)]);
    } else {
        lemma_decimal_all_digits(n / 10);
        let pre = spec_decimal(n / 10);
        let whole = spec_decimal(n);
        assert(whole =~= pre + seq![spec_digit_char(n % 10)]);
        assert(forall|p: int| 0 <= p < pre.len() ==> whole[p] == pre[p]);
        assert(whole[whole.len() - 1] == spec_digit_char(n % 10));
    }
}

/// Parsing a decimal rendering gives the number back.
pub proof fn lemma_decimal_value(n: int)
    requires
        n >= 0,
    ensures
        spec_digits_val(spec_decimal(n)) == n,
    decreases n,
{
    assert(forall|d: int| 0 <= d < 10 ==> (#[trigger] spec_digit_char(d)) as u32 == 48 + d);
    if n < 10 {
        let d = spec_decimal(n);
        assert(d =~= seq![spec_digit_char(n)]);
        assert(d.last() == spec_digit_char(n));
        assert(d.drop_last() =~= Seq::<char>::empty());
        assert(spec_digits_val(d.drop_last()) == 0);
        assert(spec_digits_val(d) == spec_digits_val(d.drop_last()) * 10 + (d.last() as u32
            - 48));
        assert((spec_digit_char(n) as u32) == 48 + n);
    } else {
        lemma_decimal_value(n / 10);
        let pre = spec_decimal(n / 10);
        let whole = spec_decimal(n);
        assert(whole.drop_last() =~= pre);
        assert(whole.last() == spec_digit_char(n % 10));
        assert(spec_digits_val(whole) == spec_digits_val(pre) * 10 + (n % 10));
    }
}

/// Zero characters carry no value.
pub proof fn lemma_zeros_val(z: int)
    ensures
        spec_digits_val(spec_zeros_of(z)) == 0,
        spec_all_digits(spec_zeros_of(z)),
    decreases z,
{
    if z > 0 {
        lemma_zeros_val(z - 1);
        let whole = spec_zeros_of(z);
        assert(whole == spec_zeros_of(z - 1).push('0'));
        assert(whole.drop_last() =~= spec_zeros_of(z - 1));
        assert(whole.last() == '0');
        assert(('0' as u32) == 48);
        assert(spec_digits_val(whole) == spec_digits_val(spec_zeros_of(z - 1)) * 10 + 0);
        assert(forall|p: int|
            0 <= p < whole.len() - 1 ==> (#[trigger] whole[p]) == spec_zeros_of(z - 1)[p]);
    }
}

/// Leading zeros do not change a digit string's value.
pub proof fn lemma_zeros_prefix_val(z: int, t: Seq<char>)
    ensures
        spec_digits_val(spec_zeros_of(z) + t) == spec_digits_val(t),
    decreases t.len(),
{
    if t.len() == 0 {
        assert(spec_zeros_of(z) + t =~= spec_zeros_of(z));
        lemma_zeros_val(z);
    } else {
        lemma_zeros_prefix_val(z, t.drop_last());
        let whole = spec_zeros_of(z) + t;
        assert(whole.drop_last() =~= spec_zeros_of(z) + t.drop_last());
        assert(whole.last() == t.last());
        assert(spec_digits_val(whole) == spec_digits_val(spec_zeros_of(z) + t.drop_last()) * 10
            + (t.last() as u32 - 48));
        assert(spec_digits_val(t) == spec_digits_val(t.drop_last()) * 10 + (t.last() as u32
            - 48));
    }
}


/// Powers of ten.
pub open spec fn spec_pow10(k: int) -> int
    decreases k,
{
    if k <= 0 {
        1
    } else {
        10 * spec_pow10(k - 1)
    }
}

/// A number below the k-th power of ten renders in at most k digits.
pub proof fn lemma_decimal_len(n: int, k: int)
    requires
        0 <= n,
        1 <= k,
        n < spec_pow10(k),
    ensures
        spec_decimal(n).len() <= k,
    decreases n,
{
    if n >= 10 {
        assert(spec_pow10(k) == 10 * spec_pow10(k - 1));
        assert(n / 10 < spec_pow10(k - 1)) by (nonlinear_arith)
            requires
                n < 10 * spec_pow10(k - 1),
                n >= 10,
        ;
        assert(k - 1 >= 1) by {
            if k == 1 {
                assert(spec_pow10(1) == 10);
                assert(n < 10);
            }
        }
        lemma_decimal_len(n / 10, k - 1);
    }
}

} // verus!
