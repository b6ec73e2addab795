//! Collecting a sequence into a sorted vector, under the element
//! type's own order or under a caller-supplied comparison.

use vstd::prelude::*;

verus! {

use core::cmp::Ordering;
use crate::cursor::Cursor;
use vstd::relations::{sorted_by, total_ordering};
use vstd::multiset::Multiset;
use vstd::seq_lib::lemma_multiset_commutative;
use vstd::std_specs::cmp::{PartialOrdIs, PartialOrdSpec};

/// The element type's `<=`, as a relation on values.
pub open spec fn le_relation<T: PartialOrd>() -> spec_fn(T, T) -> bool {
    |a: T, b: T| a.is_le(&b)
}

/// Whether `compare` can be asked about any pair of values.
pub open spec fn compare_fn_total<T, F: Fn(&T, &T) -> Ordering>(f: F) -> bool {
    forall|a: &T, b: &T| #[trigger] f.requires((a, b))
}

/// Whether the comparison function can justify placing `a` before
/// `b`: some answer for the pair in order is not `Greater`, or some
/// answer for the pair reversed is `Greater`.
pub open spec fn pair_ordered<T, F: Fn(&T, &T) -> Ordering>(f: F, a: T, b: T) -> bool {
    (exists|o: Ordering|
        {
            &&& #[trigger] call_ensures(f, (&a, &b), o)
            &&& o != Ordering::Greater
        }) || (exists|o: Ordering|
        {
            &&& #[trigger] call_ensures(f, (&b, &a), o)
            &&& o == Ordering::Greater
        })
}

/// Whether each adjacent pair of `s` is justified by an answer the
/// comparison function can give.
pub open spec fn adjacent_pairs_ordered<T, F: Fn(&T, &T) -> Ordering>(f: F, s: Seq<T>) -> bool {
    forall|i: int| 0 <= i < s.len() - 1 ==> #[trigger] pair_ordered(f, s[i], s[i + 1])
}

/// Inserting an element anywhere in a sequence adds exactly that
/// element to its multiset.
proof fn lemma_insert_to_multiset<T>(s: Seq<T>, i: int, a: T)
    requires
        0 <= i <= s.len(),
    ensures
        s.insert(i, a).to_multiset() == s.to_multiset().insert(a),
{
    broadcast use vstd::seq_lib::group_to_multiset_ensures;

    let pre = s.take(i);
    let post = s.skip(i);
    assert(s =~= pre + post);
    assert(s.insert(i, a) =~= pre + (seq![a] + post));
    lemma_multiset_commutative(pre, post);
    lemma_multiset_commutative(pre, seq![a] + post);
    lemma_multiset_commutative(seq![a], post);
    assert(seq![a].to_multiset() =~= Multiset::<T>::empty().insert(a));
    assert(s.insert(i, a).to_multiset() =~= s.to_multiset().insert(a));
}

/// Asks `compare` about a pair and reports whether the answer was
/// anything but `Greater`.
fn cmp_not_greater<T, F: Fn(&T, &T) -> Ordering>(compare: &F, a: &T, b: &T) -> (r: bool)
    requires
        compare_fn_total::<T, F>(*compare),
    ensures
        r ==> pair_ordered(*compare, *a, *b),
        !r ==> pair_ordered(*compare, *b, *a),
{
    let o = compare(a, b);
    match o {
        Ordering::Greater => {
            proof {
                assert(call_ensures(*compare, (a, b), o));
            }
            false
        },
        _ => {
            proof {
                assert(call_ensures(*compare, (a, b), o));
            }
            true
        },
    }
}

/// Inserting `e` at `p` keeps every adjacent pair justified, given the
/// two comparisons the insertion scan made at the seam.
proof fn lemma_adjacent_insert<T, F: Fn(&T, &T) -> Ordering>(f: F, s: Seq<T>, p: int, e: T)
    requires
        0 <= p <= s.len(),
        adjacent_pairs_ordered(f, s),
        p > 0 ==> pair_ordered(f, s[p - 1], e),
        p < s.len() ==> pair_ordered(f, e, s[p]),
    ensures
        adjacent_pairs_ordered(f, s.insert(p, e)),
{
    let t = s.insert(p, e);
    s.insert_ensures(p, e);
    assert forall|i: int| 0 <= i < t.len() - 1 implies #[trigger] pair_ordered(
        f,
        t[i],
        t[i + 1],
    ) by {
        if i + 1 < p {
            assert(t[i] == s[i] && t[i + 1] == s[i + 1]);
            assert(pair_ordered(f, s[i], s[i + 1]));
        } else if i + 1 == p {
            assert(t[i] == s[i] && t[i + 1] == e);
        } else if i == p {
            assert(t[i] == e && t[i + 1] == s[i]);
        } else {
            assert(t[i] == s[i - 1] && t[i + 1] == s[i]);
            assert(pair_ordered(f, s[i - 1], s[i]));
        }
    }
}

pub trait SortedIterator<T: Ord>: Sized {
    /// Returns a `Vec` with the elements of the input iterator in
    /// sorted order.
    fn sorted(self) -> Vec<T>;

    /// Returns a `Vec` with the elements of the input iterator in
    /// sorted order, as specified by a comparison function.
    fn sorted_by<F: Fn(&T, &T) -> Ordering>(self, compare: F) -> Vec<T>
        requires
            compare_fn_total::<T, F>(compare),
    ;
}

impl<T: Ord> SortedIterator<T> for Cursor<T> {
    fn sorted(self) -> (r: Vec<T>)
        ensures
            r@.to_multiset() == self@.to_multiset(),
            r@.len() == self@.len(),
            T::obeys_partial_cmp_spec() && total_ordering(le_relation::<T>()) ==> sorted_by(
                r@,
                le_relation::<T>(),
            ),
    {
        let ghost whole = self@;
        let ghost leq = le_relation::<T>();
        let ghost hyp = T::obeys_partial_cmp_spec() && total_ordering(le_relation::<T>());
        let mut c = self;
        let mut out: Vec<T> = Vec::new();
        proof {
            broadcast use vstd::seq_lib::group_to_multiset_ensures;

            assert(out@.to_multiset().add(c@.to_multiset()) =~= whole.to_multiset());
        }
        loop
            invariant
                whole == self@,
                out@.to_multiset().add(c@.to_multiset()) == whole.to_multiset(),
                out@.len() + c@.len() == whole.len(),
                hyp == (T::obeys_partial_cmp_spec() && total_ordering(le_relation::<T>())),
                leq == le_relation::<T>(),
                hyp ==> sorted_by(out@, leq),
            decreases c@.len(),
        {
            let ghost pre_c = c@;
            let e = match c.next() {
                None => {
                    proof {
                        broadcast use vstd::seq_lib::group_to_multiset_ensures;

                        assert(c@.to_multiset() =~= Multiset::<T>::empty());
                        assert(out@.to_multiset().add(c@.to_multiset()) =~= out@.to_multiset());
                    }
                    return out;
                },
                Some(e) => e,
            };
            let mut p: usize = 0;
            while p < out.len() && out[p].le(&e)
                invariant
                    p <= out@.len(),
                    hyp == (T::obeys_partial_cmp_spec() && total_ordering(le_relation::<T>())),
                    leq == le_relation::<T>(),
                    hyp ==> forall|k: int| 0 <= k < p ==> #[trigger] leq(out@[k], e),
                decreases out@.len() - p,
            {
                p += 1;
            }
            proof {
                if hyp && p < out@.len() {
                    assert(!leq(out@[p as int], e));
                    assert(leq(e, out@[p as int]));
                }
            }
            let ghost pre_out = out@;
            out.insert(p, e);
            proof {
                broadcast use vstd::seq_lib::group_to_multiset_ensures;

                lemma_insert_to_multiset(pre_out, p as int, e);
                assert(pre_c.to_multiset() =~= c@.to_multiset().insert(e)) by {
                    assert(pre_c =~= seq![e] + c@);
                    lemma_multiset_commutative(seq![e], c@);
                    assert(seq![e].to_multiset() =~= Multiset::<T>::empty().insert(e));
                }
                assert(out@.to_multiset().add(c@.to_multiset()) =~= whole.to_multiset());
                if hyp {
                    assert forall|i: int, j: int| 0 <= i < j < out@.len() implies #[trigger] leq(
                        out@[i],
                        out@[j],
                    ) by {
                        if j < p {
                            assert(out@[i] == pre_out[i] && out@[j] == pre_out[j]);
                        } else if j == p {
                            assert(out@[i] == pre_out[i] && out@[j] == e);
                        } else if i == p {
                            assert(out@[i] == e && out@[j] == pre_out[j - 1]);
                            assert(leq(e, pre_out[p as int]));
                            if j - 1 > p {
                                assert(leq(pre_out[p as int], pre_out[j - 1]));
                                assert(vstd::relations::transitive(leq));
                                assert(leq(e, pre_out[j - 1]));
                            }
                        } else if i < p {
                            assert(out@[i] == pre_out[i] && out@[j] == pre_out[j - 1]);
                            assert(leq(pre_out[i], pre_out[j - 1]));
                        } else {
                            assert(out@[i] == pre_out[i - 1] && out@[j] == pre_out[j - 1]);
                            assert(leq(pre_out[i - 1], pre_out[j - 1]));
                        }
                    }
                }
            }
        }
    }

    fn sorted_by<F: Fn(&T, &T) -> Ordering>(self, compare: F) -> (r: Vec<T>)
        ensures
            r@.to_multiset() == self@.to_multiset(),
            r@.len() == self@.len(),
            adjacent_pairs_ordered(compare, r@),
    {
        let ghost whole = self@;
        let mut c = self;
        let mut out: Vec<T> = Vec::new();
        proof {
            broadcast use vstd::seq_lib::group_to_multiset_ensures;

            assert(out@.to_multiset().add(c@.to_multiset()) =~= whole.to_multiset());
        }
        loop
            invariant
                whole == self@,
                compare_fn_total::<T, F>(compare),
                out@.to_multiset().add(c@.to_multiset()) == whole.to_multiset(),
                out@.len() + c@.len() == whole.len(),
                adjacent_pairs_ordered(compare, out@),
            decreases c@.len(),
        {
            let ghost pre_c = c@;
            let e = match c.next() {
                None => {
                    proof {
                        broadcast use vstd::seq_lib::group_to_multiset_ensures;

                        assert(c@.to_multiset() =~= Multiset::<T>::empty());
                        assert(out@.to_multiset().add(c@.to_multiset()) =~= out@.to_multiset());
                    }
                    return out;
                },
                Some(e) => e,
            };
            let mut p: usize = 0;
            while p < out.len() && cmp_not_greater(&compare, &out[p], &e)
                invariant
                    compare_fn_total::<T, F>(compare),
                    p <= out@.len(),
                    p > 0 ==> pair_ordered(compare, out@[p - 1], e),
                decreases out@.len() - p,
            {
                p += 1;
            }
            proof {
                if p < out@.len() {
                    assert(pair_ordered(compare, e, out@[p as int]));
                }
            }
            let ghost pre_out = out@;
            out.insert(p, e);
            proof {
                broadcast use vstd::seq_lib::group_to_multiset_ensures;

                lemma_insert_to_multiset(pre_out, p as int, e);
                assert(pre_c.to_multiset() =~= c@.to_multiset().insert(e)) by {
                    assert(pre_c =~= seq![e] + c@);
                    lemma_multiset_commutative(seq![e], c@);
                    assert(seq![e].to_multiset() =~= Multiset::<T>::empty().insert(e));
                }
                assert(out@.to_multiset().add(c@.to_multiset()) =~= whole.to_multiset());
                lemma_adjacent_insert(compare, pre_out, p as int, e);
            }
        }
    }
}

} // verus!
