//! An adaptor that walks a random-access source in an oscillating
//! order around a pivot index: pivot, pivot+1, pivot-1, pivot+2,
//! pivot-2, and so on, clipped at the bounds, finishing with whichever
//! side still has elements.
//!
//! A step counter drives the walk: even steps aim left of the pivot,
//! odd steps aim right, with the step's magnitude growing every two
//! steps. Out-of-range candidates are skipped without emitting. The
//! counter would overflow on enormous sources, so the walk's horizon
//! saturates at the counter's maximum and the walk then simply ends;
//! below that horizon the walk visits every index exactly once.

use vstd::prelude::*;

verus! {

use crate::cursor::{clone_exact, Cursor};
use vstd::set_lib::{lemma_int_range, set_int_range};

/// The index the walk aims at in step `p`, if it is in range: even
/// steps aim `(p + 1) / 2` left of the pivot, odd steps the same
/// distance right of it.
pub open spec fn walk_cand(n: int, s: int, p: int) -> Option<int> {
    let mag = (p + 1) / 2;
    if p % 2 == 0 {
        if mag <= s && s - mag < n {
            Some(s - mag)
        } else {
            None
        }
    } else {
        if s + mag < n {
            Some(s + mag)
        } else {
            None
        }
    }
}

/// The step at which the walk stops: one past twice the longer side's
/// element count, saturated at the step counter's maximum.
pub open spec fn walk_stop(n: int, s: int) -> int {
    let m = if s >= n - s {
        s
    } else {
        n - s
    };
    if 2 * m + 1 > usize::MAX {
        usize::MAX as int
    } else {
        2 * m + 1
    }
}

/// The indices the walk still emits from step `p` on.
pub open spec fn walk_from(n: int, s: int, p: int) -> Seq<int>
    decreases walk_stop(n, s) - p,
{
    if p >= walk_stop(n, s) {
        Seq::empty()
    } else {
        match walk_cand(n, s, p) {
            Some(j) => seq![j] + walk_from(n, s, p + 1),
            None => walk_from(n, s, p + 1),
        }
    }
}

/// The step at which the walk emits index `j`.
pub open spec fn walk_pos_of(s: int, j: int) -> int {
    if j <= s {
        2 * (s - j)
    } else {
        2 * (j - s) - 1
    }
}

/// The walk's candidate at step `p` is exactly the index whose emitting
/// step is `p`.
proof fn lemma_walk_cand_pos_of(n: int, s: int, p: int)
    requires
        0 <= s <= n,
        0 <= p,
    ensures
        walk_cand(n, s, p) matches Some(j) ==> 0 <= j < n && walk_pos_of(s, j) == p,
        walk_cand(n, s, p) is None ==> forall|j: int| 0 <= j < n ==> walk_pos_of(s, j) != p,
{
}

/// From any step `p` up to the horizon, the walk emits exactly the
/// in-range indices whose emitting step is `p` or later, each once.
proof fn lemma_walk_from_members(n: int, s: int, p: int)
    requires
        0 <= s <= n,
        0 <= p <= walk_stop(n, s),
        walk_stop(n, s) == 2 * (if s >= n - s { s } else { n - s }) + 1,
    ensures
        walk_from(n, s, p).no_duplicates(),
        forall|j: int| #[trigger] walk_from(n, s, p).contains(j) <==> (0 <= j < n && walk_pos_of(
            s,
            j,
        ) >= p),
    decreases walk_stop(n, s) - p,
{
    let sp = walk_from(n, s, p);
    if p == walk_stop(n, s) {
        assert forall|j: int| 0 <= j < n implies walk_pos_of(s, j) < walk_stop(n, s) by {}
        assert forall|j: int| !(#[trigger] sp.contains(j)) by {
            assert(sp.len() == 0);
        }
    } else {
        lemma_walk_from_members(n, s, p + 1);
        lemma_walk_cand_pos_of(n, s, p);
        let t = walk_from(n, s, p + 1);
        match walk_cand(n, s, p) {
            Some(j0) => {
                assert(sp == seq![j0] + t);
                assert forall|j: int| #[trigger] sp.contains(j) implies (0 <= j < n && walk_pos_of(
                    s,
                    j,
                ) >= p) by {
                    let i = choose|i: int| 0 <= i < sp.len() && sp[i] == j;
                    if i == 0 {
                        assert(j == j0);
                    } else {
                        assert(t[i - 1] == j);
                        assert(t.contains(j));
                    }
                }
                assert forall|j: int| (0 <= j < n && walk_pos_of(s, j) >= p) implies #[trigger] sp.contains(
                    j,
                ) by {
                    if walk_pos_of(s, j) == p {
                        assert(j == j0);
                        assert(sp[0] == j);
                    } else {
                        assert(t.contains(j));
                        let i = choose|i: int| 0 <= i < t.len() && t[i] == j;
                        assert(sp[i + 1] == j);
                    }
                }
                assert forall|i: int, k: int|
                    0 <= i < sp.len() && 0 <= k < sp.len() && i != k implies sp[i] != sp[k] by {
                    if i != 0 && k != 0 {
                        assert(sp[i] == t[i - 1] && sp[k] == t[k - 1]);
                    } else {
                        let other = if i == 0 {
                            k
                        } else {
                            i
                        };
                        assert(sp[other] == t[other - 1]);
                        assert(t.contains(t[other - 1]));
                        assert(walk_pos_of(s, t[other - 1]) >= p + 1);
                    }
                }
            },
            None => {
                assert(sp == t);
                assert forall|j: int| (0 <= j < n && walk_pos_of(s, j) >= p) implies #[trigger] sp.contains(
                    j,
                ) by {
                    assert(walk_pos_of(s, j) != p);
                    assert(t.contains(j));
                }
            },
        }
    }
}

/// The pacing walk is a permutation: below the saturation horizon it
/// emits every index of its source exactly once, the pivot first when
/// the pivot is in range.
pub proof fn lemma_pacing_walk_permutation(n: int, s: int)
    requires
        0 <= s <= n,
        2 * (if s >= n - s { s } else { n - s }) + 1 <= usize::MAX,
    ensures
        walk_from(n, s, 0).no_duplicates(),
        forall|j: int| #[trigger] walk_from(n, s, 0).contains(j) <==> 0 <= j < n,
        walk_from(n, s, 0).len() == n,
        s < n ==> walk_from(n, s, 0).len() > 0 && walk_from(n, s, 0)[0] == s,
{
    lemma_walk_from_members(n, s, 0);
    let sq = walk_from(n, s, 0);
    assert forall|j: int| #[trigger] sq.contains(j) <==> 0 <= j < n by {
        if 0 <= j < n {
            assert(walk_pos_of(s, j) >= 0);
        }
    }
    sq.unique_seq_to_set();
    assert(sq.to_set() =~= set_int_range(0, n));
    lemma_int_range(0, n);
    if s < n {
        assert(walk_cand(n, s, 0) == Some(s));
        assert(sq[0] == s);
    }
}

pub trait PacingWalkIterator<T>: Sized {
    /// The elements the iterator has left to yield.
    spec fn elements(&self) -> Seq<T>;

    /// Creates an iterator that performs a back-and-forth walk of the
    /// input, starting at index `start_at`, which must be at most the
    /// input's length. With `start_at` equal to the length the walk
    /// degenerates to a pure right-to-left walk.
    fn pacing_walk(self, start_at: usize) -> PacingWalk<T>
        requires
            start_at <= self.elements().len(),
    ;
}

impl<T> PacingWalkIterator<T> for Cursor<T> {
    open spec fn elements(&self) -> Seq<T> {
        self@
    }

    fn pacing_walk(self, start_at: usize) -> (r: PacingWalk<T>)
        ensures
            r@ == walk_from(self@.len() as int, start_at as int, 0).map_values(
                |j: int| self@[j],
            ),
            r.source() == self@,
            r.pivot() == start_at,
            r.wf(),
    {
        let r = PacingWalk { iter: self, start_at, pos: 0 };
        proof {
            assert(r@ =~= walk_from(r.iter@.len() as int, start_at as int, 0).map_values(
                |j: int| r.iter@[j],
            ));
        }
        r
    }
}

/// The view is the sequence of elements still to be yielded: the source
/// elements at the walk's remaining indices.
pub struct PacingWalk<T> {
    iter: Cursor<T>,
    start_at: usize,
    pos: usize,
}

impl<T> View for PacingWalk<T> {
    type V = Seq<T>;

    closed spec fn view(&self) -> Seq<T> {
        walk_from(self.iter@.len() as int, self.start_at as int, self.pos as int).map_values(
            |j: int| self.iter@[j],
        )
    }
}

impl<T> PacingWalk<T> {
    /// The elements of the walked source; the walk reads them by index
    /// and never consumes them.
    pub closed spec fn source(&self) -> Seq<T> {
        self.iter@
    }

    /// The index the walk oscillates around.
    pub closed spec fn pivot(&self) -> int {
        self.start_at as int
    }

    /// The pivot stays within the source; the constructor establishes
    /// this and `next` keeps it.
    pub closed spec fn wf(&self) -> bool {
        self.start_at <= self.iter@.len()
    }

    /// Unwraps the iterator, returning the underlying cursor.
    pub fn unwrap(self) -> (r: Cursor<T>)
        ensures
            r@ == self.source(),
    {
        self.iter
    }

    /// The source's size estimate, as reported by the wrapped cursor.
    pub fn size_hint(&self) -> (r: (usize, Option<usize>))
        ensures
            r.0 == self.source().len(),
            r.1 == Some(self.source().len() as usize),
    {
        self.iter.size_hint()
    }
}

impl<T: Clone> PacingWalk<T> {
    /// Yields the front element of the view: a clone of the source
    /// element at the walk's next in-range index.
    pub fn next(&mut self) -> (r: Option<T>)
        requires
            old(self).wf(),
            clone_exact::<T>(),
        ensures
            final(self).wf(),
            final(self).source() == old(self).source(),
            final(self).pivot() == old(self).pivot(),
            old(self)@.len() == 0 ==> r is None && final(self)@ == old(self)@,
            old(self)@.len() > 0 ==> r == Some(old(self)@[0]) && final(self)@ == old(self)@.drop_first(),
    {
        let ghost n_spec = self.iter@.len() as int;
        let ghost s_spec = self.start_at as int;
        let n = self.iter.len();
        let s = self.start_at;
        let m = if s >= n - s {
            s
        } else {
            n - s
        };
        let stop = if m > (usize::MAX - 1) / 2 {
            usize::MAX
        } else {
            2 * m + 1
        };
        proof {
            assert(stop == walk_stop(n_spec, s_spec));
        }
        loop
            invariant
                self.wf(),
                clone_exact::<T>(),
                self.iter@ == old(self).iter@,
                self.start_at == old(self).start_at,
                n == self.iter@.len() && s == self.start_at,
                n_spec == n as int && s_spec == s as int,
                stop == walk_stop(n_spec, s_spec),
                self@ == old(self)@,
            decreases stop - self.pos,
        {
            if self.pos >= stop {
                return None;
            }
            let mag = (self.pos + 1) / 2;
            let cand: Option<usize> = if self.pos % 2 == 0 {
                if mag <= s && s - mag < n {
                    Some(s - mag)
                } else {
                    None
                }
            } else {
                if mag < n - s {
                    Some(s + mag)
                } else {
                    None
                }
            };
            proof {
                match cand {
                    Some(j) => {
                        assert(walk_cand(n_spec, s_spec, self.pos as int) == Some(j as int));
                    },
                    None => {
                        assert(walk_cand(n_spec, s_spec, self.pos as int) is None);
                    },
                }
            }
            let ghost pre = *self;
            self.pos += 1;
            match cand {
                Some(j) => {
                    match self.iter.idx(j) {
                        Some(e) => {
                            proof {
                                assert(walk_from(n_spec, s_spec, pre.pos as int) == seq![
                                    j as int,
                                ] + walk_from(n_spec, s_spec, self.pos as int));
                                assert(old(self)@[0] == e);
                                assert(self@ =~= old(self)@.drop_first());
                            }
                            return Some(e);
                        },
                        None => {
                            proof {
                                assert(false);
                            }
                            return None;
                        },
                    }
                },
                None => {
                    proof {
                        assert(self@ =~= old(self)@);
                    }
                },
            }
        }
    }
}

} // verus!
