//! Deterministic ordering: lexicographic comparison of character sequences
//! and a verified sort of keyed entries.
//!
//! A `SortEntry` orders by its numeric key first, then its text key
//! lexicographically, then its payload index; descending ranks are encoded
//! by storing an inverted numeric key. The sort is by selection of minima,
//! so the result is sorted under that order and a permutation of the input.
use vstd::prelude::*;
use vstd::multiset::Multiset;
use vstd::seq_lib::group_to_multiset_ensures;
use vstd::string::*;

verus! {

/// Lexicographic "less or equal" on character sequences, by code point.
pub open spec fn spec_lex_le(a: Seq<char>, b: Seq<char>) -> bool
    decreases a.len(),
{
    if a.len() == 0 {
        true
    } else if b.len() == 0 {
        false
    } else if (a[0] as u32) < (b[0] as u32) {
        true
    } else if (a[0] as u32) > (b[0] as u32) {
        false
    } else {
        spec_lex_le(a.drop_first(), b.drop_first())
    }
}

pub proof fn lemma_lex_total(a: Seq<char>, b: Seq<char>)
    ensures
        spec_lex_le(a, b) || spec_lex_le(b, a),
    decreases a.len(),
{
    if a.len() != 0 && b.len() != 0 && (a[0] as u32) == (b[0] as u32) {
        lemma_lex_total(a.drop_first(), b.drop_first());
    }
}

pub proof fn lemma_lex_refl(a: Seq<char>)
    ensures
        spec_lex_le(a, a),
    decreases a.len(),
{
    if a.len() != 0 {
        lemma_lex_refl(a.drop_first());
    }
}

pub proof fn lemma_lex_antisym(a: Seq<char>, b: Seq<char>)
    requires
        spec_lex_le(a, b),
        spec_lex_le(b, a),
    ensures
        a == b,
    decreases a.len(),
{
    if a.len() == 0 {
        assert(b.len() == 0);
        assert(a =~= b);
    } else {
        assert(b.len() != 0);
        if (a[0] as u32) < (b[0] as u32) {
            assert(!spec_lex_le(b, a));
        } else if (a[0] as u32) > (b[0] as u32) {
            assert(!spec_lex_le(a, b));
        } else {
            assert(a[0] == b[0]) by {
                vstd::utf8::char_u32_cast(a[0], a[0] as u32);
                vstd::utf8::char_u32_cast(b[0], b[0] as u32);
            }
            lemma_lex_antisym(a.drop_first(), b.drop_first());
            assert(a =~= seq![a[0]] + a.drop_first());
            assert(b =~= seq![b[0]] + b.drop_first());
            assert(seq![a[0]] + a.drop_first() == seq![b[0]] + b.drop_first());
        }
    }
}

pub proof fn lemma_lex_trans(a: Seq<char>, b: Seq<char>, c: Seq<char>)
    requires
        spec_lex_le(a, b),
        spec_lex_le(b, c),
    ensures
        spec_lex_le(a, c),
    decreases a.len(),
{
    if a.len() == 0 {
    } else {
        assert(b.len() != 0);
        assert(c.len() != 0);
        if (a[0] as u32) < (b[0] as u32) {
            assert((b[0] as u32) <= (c[0] as u32));
        } else {
            assert((a[0] as u32) == (b[0] as u32));
            if (b[0] as u32) < (c[0] as u32) {
            } else {
                assert((b[0] as u32) == (c[0] as u32));
                lemma_lex_trans(a.drop_first(), b.drop_first(), c.drop_first());
            }
        }
    }
}

/// Exec lexicographic comparison matching [`spec_lex_le`].
pub fn str_lex_le(a: &str, b: &str) -> (r: bool)
    ensures
        r == spec_lex_le(a@, b@),
{
    let na = a.unicode_len();
    let nb = b.unicode_len();
    let mut i: usize = 0;
    proof {
        assert(a@.skip(0) =~= a@);
        assert(b@.skip(0) =~= b@);
    }
    loop
        invariant
            na == a@.len(),
            nb == b@.len(),
            0 <= i <= na,
            i <= nb,
            spec_lex_le(a@, b@) == spec_lex_le(a@.skip(i as int), b@.skip(i as int)),
        decreases na - i,
    {
        if i >= na {
            proof {
                assert(a@.skip(i as int).len() == 0);
            }
            return true;
        }
        if i >= nb {
            proof {
                assert(b@.skip(i as int).len() == 0);
                assert(a@.skip(i as int).len() > 0);
            }
            return false;
        }
        let ca = a.get_char(i);
        let cb = b.get_char(i);
        proof {
            assert(a@.skip(i as int)[0] == a@[i as int]);
            assert(b@.skip(i as int)[0] == b@[i as int]);
            assert(a@.skip(i as int).drop_first() =~= a@.skip(i as int + 1));
            assert(b@.skip(i as int).drop_first() =~= b@.skip(i as int + 1));
        }
        if (ca as u32) < (cb as u32) {
            return true;
        }
        if (ca as u32) > (cb as u32) {
            return false;
        }
        i += 1;
    }
}

/// An entry to sort: numeric key, text key, payload index.
#[derive(Debug)]
pub struct SortEntry {
    pub num: u64,
    pub text: String,
    pub idx: usize,
}

impl Clone for SortEntry {
    fn clone(&self) -> (r: Self)
        ensures
            r == *self,
    {
        SortEntry { num: self.num, text: self.text.clone(), idx: self.idx }
    }
}

/// Total order on entries: numeric key, then text, then index.
pub open spec fn spec_entry_le(x: SortEntry, y: SortEntry) -> bool {
    if x.num != y.num {
        x.num < y.num
    } else if x.text@ != y.text@ {
        spec_lex_le(x.text@, y.text@)
    } else {
        x.idx <= y.idx
    }
}

pub proof fn lemma_entry_total(x: SortEntry, y: SortEntry)
    ensures
        spec_entry_le(x, y) || spec_entry_le(y, x),
{
    lemma_lex_total(x.text@, y.text@);
    if x.num == y.num && x.text@ != y.text@ {
        if spec_lex_le(x.text@, y.text@) && spec_lex_le(y.text@, x.text@) {
            lemma_lex_antisym(x.text@, y.text@);
        }
    }
}

pub proof fn lemma_entry_trans(x: SortEntry, y: SortEntry, z: SortEntry)
    requires
        spec_entry_le(x, y),
        spec_entry_le(y, z),
    ensures
        spec_entry_le(x, z),
{
    if x.num == y.num && y.num == z.num {
        if x.text@ != y.text@ && y.text@ != z.text@ {
            lemma_lex_trans(x.text@, y.text@, z.text@);
            if x.text@ == z.text@ {
                lemma_lex_antisym(x.text@, y.text@);
            }
        }
    }
}

fn entry_le(x: &SortEntry, y: &SortEntry) -> (r: bool)
    ensures
        r == spec_entry_le(*x, *y),
{
    if x.num != y.num {
        x.num < y.num
    } else if !x.text.eq(&y.text) {
        str_lex_le(x.text.as_str(), y.text.as_str())
    } else {
        x.idx <= y.idx
    }
}

/// A permutation contains exactly the same elements in both directions.
pub proof fn lemma_permutation_contains(original: Seq<SortEntry>, sorted: Seq<SortEntry>)
    requires
        sorted.to_multiset() == original.to_multiset(),
    ensures
        forall|k: int| 0 <= k < sorted.len() ==> original.contains(#[trigger] sorted[k]),
        forall|j: int| 0 <= j < original.len() ==> sorted.contains(#[trigger] original[j]),
        sorted.len() == original.len(),
{
    sorted.to_multiset_ensures();
    original.to_multiset_ensures();
    assert forall|k: int| 0 <= k < sorted.len() implies original.contains(
        #[trigger] sorted[k],
    ) by {
        assert(sorted.contains(sorted[k]));
        assert(sorted.to_multiset().count(sorted[k]) > 0);
        assert(original.to_multiset().count(sorted[k]) > 0);
    }
    assert forall|j: int| 0 <= j < original.len() implies sorted.contains(
        #[trigger] original[j],
    ) by {
        assert(original.contains(original[j]));
        assert(original.to_multiset().count(original[j]) > 0);
        assert(sorted.to_multiset().count(original[j]) > 0);
    }
}

/// Sorts entries ascending under [`spec_entry_le`]; the result is a
/// permutation of the input.
pub fn sort_entries(input: Vec<SortEntry>) -> (r: Vec<SortEntry>)
    ensures
        r.len() == input.len(),
        forall|i: int, j: int|
            0 <= i <= j < r.len() ==> spec_entry_le(#[trigger] r[i], #[trigger] r[j]),
        r@.to_multiset() == input@.to_multiset(),
{
    broadcast use group_to_multiset_ensures;

    let ghost orig = input@;
    let mut rem = input;
    let mut out: Vec<SortEntry> = Vec::new();
    while rem.len() > 0
        invariant
            out@.to_multiset().add(rem@.to_multiset()) =~= orig.to_multiset(),
            out.len() + rem.len() == orig.len(),
            forall|i: int, j: int|
                0 <= i <= j < out.len() ==> spec_entry_le(#[trigger] out[i], #[trigger] out[j]),
            forall|i: int, j: int|
                0 <= i < out.len() && 0 <= j < rem.len() ==> spec_entry_le(
                    #[trigger] out[i],
                    #[trigger] rem[j],
                ),
        decreases rem.len(),
    {
        let mut m: usize = 0;
        let mut k: usize = 1;
        while k < rem.len()
            invariant
                0 <= m < k <= rem.len() || (m == 0 && k <= rem.len()),
                m < rem.len(),
                forall|t: int| 0 <= t < k ==> spec_entry_le(rem[m as int], #[trigger] rem[t]),
            decreases rem.len() - k,
        {
            if entry_le(&rem[k], &rem[m]) {
                proof {
                    assert forall|t: int| 0 <= t < k implies spec_entry_le(
                        rem[k as int],
                        #[trigger] rem[t],
                    ) by {
                        lemma_entry_trans(rem[k as int], rem[m as int], rem[t]);
                    }
                }
                m = k;
            } else {
                proof {
                    lemma_entry_total(rem[k as int], rem[m as int]);
                }
            }
            k += 1;
        }
        let ghost rem0 = rem@;
        let ghost out0 = out@;
        let e = rem.remove(m);
        proof {
            assert(rem@ =~= rem0.subrange(0, m as int) + rem0.subrange(
                m as int + 1,
                rem0.len() as int,
            ));
            assert(forall|j: int|
                0 <= j < rem@.len() ==> (#[trigger] rem@[j]) == if j < m {
                    rem0[j]
                } else {
                    rem0[j + 1]
                });
            assert(forall|j: int| 0 <= j < rem@.len() ==> spec_entry_le(e, #[trigger] rem@[j]));
            assert(rem0[m as int] == e);
            assert(rem@ == rem0.remove(m as int));
            rem0.to_multiset_ensures();
            assert(rem0.remove(m as int).to_multiset() =~= rem0.to_multiset().remove(
                rem0[m as int],
            ));
            assert(rem@.to_multiset() =~= rem0.to_multiset().remove(e));
        }
        out.push(e);
        proof {
            assert(out@ =~= out0.push(e));
            out0.to_multiset_ensures();
            assert(out0.push(e).to_multiset() =~= out0.to_multiset().insert(e));
            assert(out@.to_multiset() =~= out0.to_multiset().insert(e));
            assert(out@.to_multiset().add(rem@.to_multiset()) =~= orig.to_multiset());
        }
    }
    proof {
        assert(rem@.to_multiset() =~= Multiset::empty());
        assert(out@.to_multiset() =~= orig.to_multiset());
    }
    out
}

} // verus!
