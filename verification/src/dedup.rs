//! First-occurrence deduplication of a list of values, used when
//! comparing bunch counters across chips and across lanes.

use itertools::Itertools;
use vstd::prelude::*;

verus! {

/// The distinct values of `s`, each at its first occurrence, in order.
pub open spec fn dedup_first(s: Seq<u16>) -> Seq<u16>
    decreases s.len(),
{
    if s.len() == 0 {
        Seq::empty()
    } else {
        let p = dedup_first(s.drop_last());
        if p.contains(s.last()) {
            p
        } else {
            p.push(s.last())
        }
    }
}

/// Relies on itertools::Itertools::unique: it filters out values already
/// produced, keeping the first occurrence of each value, in order.
#[verifier::external_body]
pub fn unique_u16(v: &Vec<u16>) -> (r: Vec<u16>)
    ensures
        r@ == dedup_first(v@),
{
    v.iter().copied().unique().collect()
}

/// A value occurs in the deduplicated list exactly when it occurs in the
/// original.
pub proof fn lemma_dedup_contains(s: Seq<u16>, x: u16)
    ensures
        dedup_first(s).contains(x) <==> s.contains(x),
    decreases s.len(),
{
    if s.len() > 0 {
        lemma_dedup_contains(s.drop_last(), x);
        let p = dedup_first(s.drop_last());
        let d = dedup_first(s);
        assert(s.contains(x) <==> (s.drop_last().contains(x) || x == s.last())) by {
            if s.contains(x) {
                let i = choose|i: int| 0 <= i < s.len() && s[i] == x;
                if i < s.len() - 1 {
                    assert(s.drop_last()[i] == x);
                }
            }
            if s.drop_last().contains(x) {
                let i = choose|i: int| 0 <= i < s.drop_last().len() && s.drop_last()[i] == x;
                assert(s[i] == x);
            }
            if x == s.last() {
                assert(s[s.len() - 1] == x);
            }
        };
        if p.contains(s.last()) {
            if x == s.last() {
                assert(d.contains(x));
            }
        } else {
            assert(d.contains(x) <==> (p.contains(x) || x == s.last())) by {
                if p.contains(x) {
                    let i = choose|i: int| 0 <= i < p.len() && p[i] == x;
                    assert(d[i] == x);
                }
                if x == s.last() {
                    assert(d[d.len() - 1] == x);
                }
                if d.contains(x) {
                    let i = choose|i: int| 0 <= i < d.len() && d[i] == x;
                    if i < d.len() - 1 {
                        assert(p[i] == x);
                    }
                }
            };
        }
    }
}

/// When the deduplicated list has at most one entry, all values of the
/// original are equal.
pub proof fn lemma_dedup_single(s: Seq<u16>)
    requires
        dedup_first(s).len() <= 1,
    ensures
        forall|i: int, j: int| 0 <= i < s.len() && 0 <= j < s.len() ==> s[i] == s[j],
{
    assert forall|i: int, j: int| 0 <= i < s.len() && 0 <= j < s.len() implies s[i] == s[j] by {
        lemma_dedup_contains(s, s[i]);
        lemma_dedup_contains(s, s[j]);
        let d = dedup_first(s);
        let ki = choose|k: int| 0 <= k < d.len() && d[k] == s[i];
        let kj = choose|k: int| 0 <= k < d.len() && d[k] == s[j];
        assert(ki == 0 && kj == 0);
    }
}

/// When all values of the original are equal, the deduplicated list has
/// at most one entry.
pub proof fn lemma_dedup_all_eq(s: Seq<u16>)
    requires
        forall|i: int, j: int| 0 <= i < s.len() && 0 <= j < s.len() ==> s[i] == s[j],
    ensures
        dedup_first(s).len() <= 1,
    decreases s.len(),
{
    if s.len() > 0 {
        lemma_dedup_all_eq(s.drop_last());
        let p = dedup_first(s.drop_last());
        if !p.contains(s.last()) && p.len() == 1 {
            lemma_dedup_contains(s.drop_last(), p[0]);
            assert(s.drop_last().contains(p[0]));
            assert(false);
        }
    }
}

/// The deduplicated list is empty exactly when the original is.
pub proof fn lemma_dedup_empty(s: Seq<u16>)
    ensures
        dedup_first(s).len() == 0 <==> s.len() == 0,
    decreases s.len(),
{
    if s.len() > 0 {
        lemma_dedup_empty(s.drop_last());
    }
}

} // verus!
