//! One verified insertion sort for every record the library orders by a
//! string key: catalog entries by relative path and scanned markdown files
//! by relative path share this code and its proof.
use vstd::prelude::*;
use vstd::multiset::Multiset;

use crate::text::lemma_insert_multiset;
use crate::text::lemma_lex_total;
use crate::text::lemma_lex_trans;
use crate::text::lex_le;
use crate::text::str_le;

verus! {

/// A record ordered by one string key.
pub trait SortKey: Sized {
    /// The key, in specification form.
    spec fn key(&self) -> Seq<char>;

    /// The key, as the string the record holds.
    fn key_str(&self) -> (r: &str)
        ensures
            r@ == self.key(),
    ;
}

/// Records in ascending order of their keys.
pub open spec fn sorted_by_key<T: SortKey>(s: Seq<T>) -> bool {
    forall|i: int, j: int| 0 <= i < j < s.len() ==> lex_le(s[i].key(), s[j].key())
}

/// Pairwise-distinct keys.
pub open spec fn keys_distinct<T: SortKey>(s: Seq<T>) -> bool {
    forall|i: int, j: int| 0 <= i < j < s.len() ==> s[i].key() != s[j].key()
}

/// The position in the sorted prefix `v[..i]` before which `v[i]` belongs:
/// everything before it is at most `v[i]`, everything from it up to `i` is
/// at least `v[i]`.
fn insert_pos<T: SortKey>(v: &Vec<T>, i: usize) -> (k: usize)
    requires
        i < v@.len(),
        sorted_by_key(v@.take(i as int)),
    ensures
        k <= i,
        forall|m: int| 0 <= m < k ==> lex_le(v@[m].key(), v@[i as int].key()),
        forall|m: int| k <= m < i ==> lex_le(v@[i as int].key(), v@[m].key()),
{
    let mut k: usize = 0;
    while k < i
        invariant
            k <= i,
            i < v@.len(),
            sorted_by_key(v@.take(i as int)),
            forall|m: int| 0 <= m < k ==> lex_le(v@[m].key(), v@[i as int].key()),
        decreases i - k,
    {
        if !str_le(v[k].key_str(), v[i].key_str()) {
            proof {
                lemma_lex_total(v@[k as int].key(), v@[i as int].key());
                assert forall|m: int| k <= m < i implies lex_le(
                    v@[i as int].key(),
                    v@[m].key(),
                ) by {
                    assert(v@.take(i as int)[k as int] == v@[k as int]);
                    assert(v@.take(i as int)[m] == v@[m]);
                    if k < m {
                        lemma_lex_trans(v@[i as int].key(), v@[k as int].key(), v@[m].key());
                    }
                }
            }
            return k;
        }
        k = k + 1;
    }
    k
}

/// Sorts the records ascending by key, keeping exactly the same records:
/// every output record is an input record, and distinct input keys stay
/// distinct.
pub fn sort_by_key<T: SortKey>(v: &mut Vec<T>)
    ensures
        sorted_by_key(final(v)@),
        final(v)@.to_multiset() == old(v)@.to_multiset(),
        forall|t: int| 0 <= t < final(v)@.len() ==> old(v)@.contains(#[trigger] final(v)@[t]),
        keys_distinct(old(v)@) ==> keys_distinct(final(v)@),
{
    broadcast use vstd::seq_lib::group_to_multiset_ensures;
    broadcast use vstd::multiset::group_multiset_axioms;

    let mut i: usize = 1;
    while i < v.len()
        invariant
            1 <= i,
            i <= v@.len() || v@.len() == 0,
            v@.len() == old(v)@.len(),
            v@.to_multiset() == old(v)@.to_multiset(),
            sorted_by_key(v@.take(i as int)) || v@.len() == 0,
            forall|t: int| 0 <= t < v@.len() ==> old(v)@.contains(#[trigger] v@[t]),
            keys_distinct(old(v)@) ==> keys_distinct(v@),
        decreases v@.len() - i,
    {
        let ghost w = v@;
        let k = insert_pos(v, i);
        let e = v.remove(i);
        v.insert(k, e);
        proof {
            let ghost w2 = w.remove(i as int);
            let ghost w3 = w2.insert(k as int, w[i as int]);
            assert(v@ == w3);
            w.to_multiset_ensures();
            assert(w2.to_multiset() =~= w.to_multiset().remove(w[i as int]));
            lemma_insert_multiset(w2, k as int, w[i as int]);
            assert(w.contains(w[i as int]));
            assert(w.to_multiset().count(w[i as int]) > 0);
            assert(v@.to_multiset() =~= w.to_multiset());
            assert(w3 =~= w.subrange(0, k as int) + seq![w[i as int]] + w.subrange(
                k as int,
                i as int,
            ) + w.subrange(i + 1, w.len() as int));
            assert forall|m: int, n: int| #![trigger w3[m], w3[n]] 0 <= m < n < i + 1 implies
                lex_le(w3[m].key(), w3[n].key()) by {
                assert(forall|t: int| 0 <= t < k ==> w3[t] == w[t]);
                assert(w3[k as int] == w[i as int]);
                assert(forall|t: int| k < t < i + 1 ==> w3[t] == w[t - 1]);
                assert(forall|a: int, b: int|
                    0 <= a < b < i ==> lex_le(w.take(i as int)[a].key(), w.take(i as int)[b].key()));
                assert(forall|t: int| 0 <= t < i ==> w.take(i as int)[t] == w[t]);
            }
            assert forall|m: int, n: int| 0 <= m < n < i + 1 implies lex_le(
                #[trigger] v@.take(i + 1)[m].key(),
                #[trigger] v@.take(i + 1)[n].key(),
            ) by {
                assert(v@.take(i + 1)[m] == w3[m]);
                assert(v@.take(i + 1)[n] == w3[n]);
            }
            assert(sorted_by_key(v@.take(i + 1)));
            assert forall|t: int| 0 <= t < w3.len() implies old(v)@.contains(#[trigger] w3[t]) by {
                assert(forall|u: int| 0 <= u < k ==> w3[u] == w[u]);
                assert(w3[k as int] == w[i as int]);
                assert(forall|u: int| k < u < i + 1 ==> w3[u] == w[u - 1]);
                assert(forall|u: int| i < u < w3.len() ==> w3[u] == w[u]);
            }
            if keys_distinct(old(v)@) {
                assert forall|m: int, n: int| #![trigger w3[m], w3[n]] 0 <= m < n < w3.len()
                    implies w3[m].key() != w3[n].key() by {
                    assert(forall|u: int| 0 <= u < k ==> w3[u] == w[u]);
                    assert(w3[k as int] == w[i as int]);
                    assert(forall|u: int| k < u < i + 1 ==> w3[u] == w[u - 1]);
                    assert(forall|u: int| i < u < w3.len() ==> w3[u] == w[u]);
                    assert(keys_distinct(w));
                }
                assert(keys_distinct(v@));
            }
        }
        i = i + 1;
    }
    proof {
        if v@.len() > 0 {
            assert(v@.take(v@.len() as int) =~= v@);
        }
    }
}

} // verus!
