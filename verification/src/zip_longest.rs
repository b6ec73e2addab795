//! An adaptor that pulls two sources in lockstep, padding the shorter
//! one with `None` until the longer one is exhausted.

use vstd::prelude::*;

verus! {

use crate::cursor::Cursor;

/// The output of zipping `a` and `b` to the longer length: at each
/// position, the element of each side if it reaches that far.
pub open spec fn zip_longest_seq<T0, T1>(a: Seq<T0>, b: Seq<T1>) -> Seq<(Option<T0>, Option<T1>)> {
    Seq::new(
        if a.len() >= b.len() { a.len() } else { b.len() },
        |i: int|
            (
                if i < a.len() { Some(a[i]) } else { None },
                if i < b.len() { Some(b[i]) } else { None },
            ),
    )
}

pub trait ZipLongestIterator<T0>: Sized {
    /// Creates an iterator which yields elements from both input
    /// iterators in lockstep. If one iterator ends before the other, the
    /// elements from that iterator will be replaced with `None`.
    fn zip_longest<T1>(self, right: Cursor<T1>) -> ZipLongest<T0, T1>;
}

impl<T0> ZipLongestIterator<T0> for Cursor<T0> {
    fn zip_longest<T1>(self, right: Cursor<T1>) -> (r: ZipLongest<T0, T1>)
        ensures
            r@ == zip_longest_seq(self@, right@),
            r.left_source() == self@,
            r.right_source() == right@,
    {
        ZipLongest { left: self, right }
    }
}

/// The view is the sequence of pairs still to be yielded.
pub struct ZipLongest<T0, T1> {
    left: Cursor<T0>,
    right: Cursor<T1>,
}

impl<T0, T1> View for ZipLongest<T0, T1> {
    type V = Seq<(Option<T0>, Option<T1>)>;

    closed spec fn view(&self) -> Seq<(Option<T0>, Option<T1>)> {
        zip_longest_seq(self.left@, self.right@)
    }
}

impl<T0, T1> ZipLongest<T0, T1> {
    /// The remaining elements of the left source.
    pub closed spec fn left_source(&self) -> Seq<T0> {
        self.left@
    }

    /// The remaining elements of the right source.
    pub closed spec fn right_source(&self) -> Seq<T1> {
        self.right@
    }

    /// Unwraps the iterator, returning the underlying cursors.
    pub fn unwrap(self) -> (r: (Cursor<T0>, Cursor<T1>))
        ensures
            r.0@ == self.left_source(),
            r.1@ == self.right_source(),
    {
        let ZipLongest { left, right } = self;
        (left, right)
    }

    /// Yields the front pair of the view: both sides are pulled once,
    /// each dropping its front element if it still has one.
    pub fn next(&mut self) -> (r: Option<(Option<T0>, Option<T1>)>)
        ensures
            old(self)@.len() == 0 ==> r is None && final(self)@ == old(self)@,
            old(self)@.len() > 0 ==> r == Some(old(self)@[0]) && final(self)@ == old(self)@.drop_first(),
            final(self).left_source() == (if old(self).left_source().len() > 0 {
                old(self).left_source().drop_first()
            } else {
                old(self).left_source()
            }),
            final(self).right_source() == (if old(self).right_source().len() > 0 {
                old(self).right_source().drop_first()
            } else {
                old(self).right_source()
            }),
    {
        let r = match (self.left.next(), self.right.next()) {
            (None, None) => None,
            e => Some(e),
        };
        proof {
            if old(self)@.len() > 0 {
                assert(self@ =~= old(self)@.drop_first());
            } else {
                assert(self@ =~= old(self)@);
            }
        }
        r
    }

    /// The exact size estimate of the remaining output. Recomputing it
    /// after a pull that yielded a pair gives exactly one less: the bound
    /// tracks the elements consumed.
    pub fn size_hint(&self) -> (r: (usize, Option<usize>))
        ensures
            r.0 == self@.len(),
            r.1 == Some(self@.len() as usize),
    {
        let l0 = self.left.len();
        let l1 = self.right.len();
        let n = if l0 >= l1 { l0 } else { l1 };
        (n, Some(n))
    }
}

} // verus!
