//! Adaptors that alternate between two sources.
//!
//! [`RoundRobin`] stops as soon as the side whose turn it is runs dry;
//! [`RoundRobinLongest`] skips an exhausted side and drains the other.

use vstd::prelude::*;

verus! {

use crate::cursor::Cursor;

/// The output of strict alternation: one element from each side in turn,
/// starting with `a` when `first0` holds, stopping the moment the side
/// whose turn it is has nothing left.
pub open spec fn round_robin_seq<T>(a: Seq<T>, b: Seq<T>, first0: bool) -> Seq<T>
    decreases a.len() + b.len(),
{
    if first0 {
        if a.len() == 0 {
            Seq::empty()
        } else {
            seq![a[0]] + round_robin_seq(a.drop_first(), b, false)
        }
    } else {
        if b.len() == 0 {
            Seq::empty()
        } else {
            seq![b[0]] + round_robin_seq(a, b.drop_first(), true)
        }
    }
}

/// The output of forgiving alternation: as [`round_robin_seq`], but an
/// exhausted side is skipped (`fused` records that this has happened)
/// and the other side is drained.
pub open spec fn round_robin_longest_seq<T>(a: Seq<T>, b: Seq<T>, first0: bool, fused: bool) -> Seq<
    T,
>
    decreases a.len() + b.len(),
{
    if fused {
        if first0 {
            a
        } else {
            b
        }
    } else if first0 {
        if a.len() == 0 {
            b
        } else {
            seq![a[0]] + round_robin_longest_seq(a.drop_first(), b, false, false)
        }
    } else {
        if b.len() == 0 {
            a
        } else {
            seq![b[0]] + round_robin_longest_seq(a, b.drop_first(), true, false)
        }
    }
}

/// Strict alternation yields both sides up to the shorter length, plus
/// one more element of the first side when it is the longer one.
pub proof fn lemma_round_robin_seq_len<T>(a: Seq<T>, b: Seq<T>, first0: bool)
    ensures
        first0 ==> round_robin_seq(a, b, first0).len() == if a.len() <= b.len() {
            2 * a.len()
        } else {
            2 * b.len() + 1
        },
        !first0 ==> round_robin_seq(a, b, first0).len() == if b.len() <= a.len() {
            2 * b.len()
        } else {
            2 * a.len() + 1
        },
    decreases a.len() + b.len(),
{
    if first0 {
        if a.len() > 0 {
            lemma_round_robin_seq_len(a.drop_first(), b, false);
        }
    } else {
        if b.len() > 0 {
            lemma_round_robin_seq_len(a, b.drop_first(), true);
        }
    }
}

/// Forgiving alternation loses nothing: its length is the sum of both
/// sides' lengths.
pub proof fn lemma_round_robin_longest_seq_len<T>(a: Seq<T>, b: Seq<T>, first0: bool, fused: bool)
    requires
        fused ==> (first0 ==> b.len() == 0) && (!first0 ==> a.len() == 0),
    ensures
        round_robin_longest_seq(a, b, first0, fused).len() == a.len() + b.len(),
    decreases a.len() + b.len(),
{
    if !fused {
        if first0 {
            if a.len() > 0 {
                lemma_round_robin_longest_seq_len(a.drop_first(), b, false, false);
            }
        } else {
            if b.len() > 0 {
                lemma_round_robin_longest_seq_len(a, b.drop_first(), true, false);
            }
        }
    }
}

pub trait RoundRobinIterator<T>: Sized {
    /// Creates an iterator that alternates between yielding elements of
    /// the two input iterators. It stops as soon as the side whose turn
    /// it is is exhausted.
    fn round_robin(self, other_it: Cursor<T>) -> RoundRobin<T>;

    /// Creates an iterator that alternates between yielding elements of
    /// the two input iterators. If one iterator stops before the other,
    /// it is simply skipped.
    fn round_robin_longest(self, other_it: Cursor<T>) -> RoundRobinLongest<T>;
}

impl<T> RoundRobinIterator<T> for Cursor<T> {
    fn round_robin(self, other_it: Cursor<T>) -> (r: RoundRobin<T>)
        ensures
            r@ == round_robin_seq(self@, other_it@, true),
            r.sources() == (self@, other_it@),
            r.turn_first(),
    {
        RoundRobin { it0: self, it1: other_it, phase0: true }
    }

    fn round_robin_longest(self, other_it: Cursor<T>) -> (r: RoundRobinLongest<T>)
        ensures
            r@ == round_robin_longest_seq(self@, other_it@, true, false),
            r.sources() == (self@, other_it@),
            r.turn_first(),
            !r.fused(),
            r.wf(),
    {
        RoundRobinLongest { it0: self, it1: other_it, phase0: true, fused: false }
    }
}

/// The view is the sequence of elements still to be yielded.
pub struct RoundRobin<T> {
    it0: Cursor<T>,
    it1: Cursor<T>,
    phase0: bool,
}

impl<T> View for RoundRobin<T> {
    type V = Seq<T>;

    closed spec fn view(&self) -> Seq<T> {
        round_robin_seq(self.it0@, self.it1@, self.phase0)
    }
}

impl<T> RoundRobin<T> {
    /// The remaining elements of the two wrapped cursors.
    pub closed spec fn sources(&self) -> (Seq<T>, Seq<T>) {
        (self.it0@, self.it1@)
    }

    /// Whether the first source is the one pulled next.
    pub closed spec fn turn_first(&self) -> bool {
        self.phase0
    }

    /// Unwraps the iterator, returning the underlying cursors.
    pub fn unwrap(self) -> (r: (Cursor<T>, Cursor<T>))
        ensures
            (r.0@, r.1@) == self.sources(),
    {
        let RoundRobin { it0, it1, .. } = self;
        (it0, it1)
    }

    /// Yields the front element of the view: one element from the side
    /// whose turn it is, after which the turn passes to the other side.
    pub fn next(&mut self) -> (r: Option<T>)
        ensures
            old(self)@.len() == 0 ==> r is None && final(self)@ == old(self)@ && final(self).sources() == old(self).sources() && final(self).turn_first() == old(self).turn_first(),
            old(self)@.len() > 0 ==> r == Some(old(self)@[0]) && final(self)@ == old(self)@.drop_first(),
            old(self)@.len() > 0 && old(self).turn_first() ==> final(self).sources() == (
                old(self).sources().0.drop_first(),
                old(self).sources().1,
            ) && !final(self).turn_first(),
            old(self)@.len() > 0 && !old(self).turn_first() ==> final(self).sources() == (
                old(self).sources().0,
                old(self).sources().1.drop_first(),
            ) && final(self).turn_first(),
    {
        if self.phase0 {
            match self.it0.next() {
                None => None,
                e => {
                    self.phase0 = false;
                    e
                },
            }
        } else {
            match self.it1.next() {
                None => None,
                e => {
                    self.phase0 = true;
                    e
                },
            }
        }
    }

    /// The exact size estimate of the remaining output.
    pub fn size_hint(&self) -> (r: (usize, Option<usize>))
        requires
            self@.len() <= usize::MAX,
        ensures
            r.0 == self@.len(),
            r.1 == Some(self@.len() as usize),
    {
        proof {
            lemma_round_robin_seq_len(self.it0@, self.it1@, self.phase0);
        }
        let l0 = self.it0.len();
        let l1 = self.it1.len();
        let n = if self.phase0 {
            if l0 <= l1 {
                l0 + l0
            } else {
                l1 + l1 + 1
            }
        } else {
            if l1 <= l0 {
                l1 + l1
            } else {
                l0 + l0 + 1
            }
        };
        (n, Some(n))
    }
}

/// The view is the sequence of elements still to be yielded.
pub struct RoundRobinLongest<T> {
    it0: Cursor<T>,
    it1: Cursor<T>,
    phase0: bool,
    fused: bool,
}

impl<T> View for RoundRobinLongest<T> {
    type V = Seq<T>;

    closed spec fn view(&self) -> Seq<T> {
        round_robin_longest_seq(self.it0@, self.it1@, self.phase0, self.fused)
    }
}

impl<T> RoundRobinLongest<T> {
    /// The remaining elements of the two wrapped cursors.
    pub closed spec fn sources(&self) -> (Seq<T>, Seq<T>) {
        (self.it0@, self.it1@)
    }

    /// Whether the first source is the one pulled next.
    pub closed spec fn turn_first(&self) -> bool {
        self.phase0
    }

    /// Whether one side has been found exhausted, leaving the walk on
    /// the other side alone.
    pub closed spec fn fused(&self) -> bool {
        self.fused
    }

    /// Once a side has been found exhausted, the walk stays on the other
    /// side; the constructor establishes this and `next` keeps it.
    pub closed spec fn wf(&self) -> bool {
        self.fused ==> (self.phase0 ==> self.it1@.len() == 0) && (!self.phase0
            ==> self.it0@.len() == 0)
    }

    /// Unwraps the iterator, returning the underlying cursors.
    pub fn unwrap(self) -> (r: (Cursor<T>, Cursor<T>))
        ensures
            (r.0@, r.1@) == self.sources(),
    {
        let RoundRobinLongest { it0, it1, .. } = self;
        (it0, it1)
    }

    /// Yields the front element of the view: one element from the side
    /// whose turn it is, the other side when that one turns out to be
    /// exhausted, after which the turn passes on.
    pub fn next(&mut self) -> (r: Option<T>)
        requires
            old(self).wf(),
        ensures
            final(self).wf(),
            old(self)@.len() == 0 ==> r is None && final(self)@ == old(self)@ && final(self).sources() == old(self).sources(),
            old(self)@.len() > 0 ==> r == Some(old(self)@[0]) && final(self)@ == old(self)@.drop_first(),
            old(self)@.len() > 0 && old(self).fused() ==> final(self).fused() && final(self).turn_first() == old(self).turn_first() && final(self).sources() == (
            if old(self).turn_first() {
                (old(self).sources().0.drop_first(), old(self).sources().1)
            } else {
                (old(self).sources().0, old(self).sources().1.drop_first())
            }),
            old(self)@.len() > 0 && !old(self).fused() && old(self).turn_first() ==> !final(self).turn_first() && (if old(self).sources().0.len() > 0 {
                final(self).sources() == (old(self).sources().0.drop_first(), old(self).sources().1)
                    && !final(self).fused()
            } else {
                final(self).sources() == (old(self).sources().0, old(self).sources().1.drop_first())
                    && final(self).fused()
            }),
            old(self)@.len() > 0 && !old(self).fused() && !old(self).turn_first() ==> final(self).turn_first() && (if old(self).sources().1.len() > 0 {
                final(self).sources() == (old(self).sources().0, old(self).sources().1.drop_first())
                    && !final(self).fused()
            } else {
                final(self).sources() == (old(self).sources().0.drop_first(), old(self).sources().1)
                    && final(self).fused()
            }),
    {
        if self.fused {
            if self.phase0 {
                self.it0.next()
            } else {
                self.it1.next()
            }
        } else if self.phase0 {
            match self.it0.next() {
                None => {
                    self.phase0 = false;
                    self.fused = true;
                    self.it1.next()
                },
                e => {
                    self.phase0 = false;
                    e
                },
            }
        } else {
            match self.it1.next() {
                None => {
                    self.phase0 = true;
                    self.fused = true;
                    self.it0.next()
                },
                e => {
                    self.phase0 = true;
                    e
                },
            }
        }
    }

    /// The exact size estimate of the remaining output: nothing is ever
    /// lost, so it is the sum of both sides' lengths.
    pub fn size_hint(&self) -> (r: (usize, Option<usize>))
        requires
            self.wf(),
            self@.len() <= usize::MAX,
        ensures
            r.0 == self@.len(),
            r.1 == Some(self@.len() as usize),
    {
        proof {
            lemma_round_robin_longest_seq_len(self.it0@, self.it1@, self.phase0, self.fused);
        }
        let n = self.it0.len() + self.it1.len();
        (n, Some(n))
    }
}

} // verus!
