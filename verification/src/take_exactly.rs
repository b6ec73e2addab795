//! An adaptor that yields exactly `n` elements of its source.
//!
//! Asking for more elements than the source holds is a caller error;
//! the constructor's precondition rules that case out, so the adaptor
//! never runs dry early.

use vstd::prelude::*;

verus! {

use crate::cursor::Cursor;

pub trait TakeExactlyIterator<T>: Sized {
    /// The elements the iterator has left to yield.
    spec fn elements(&self) -> Seq<T>;

    /// Creates an iterator that yields exactly `n` elements from the
    /// subject iterator. The subject must hold at least `n` elements.
    fn take_exactly(self, n: usize) -> TakeExactly<T>
        requires
            n <= self.elements().len(),
    ;
}

impl<T> TakeExactlyIterator<T> for Cursor<T> {
    open spec fn elements(&self) -> Seq<T> {
        self@
    }

    fn take_exactly(self, n: usize) -> (r: TakeExactly<T>)
        ensures
            r@ == self@.take(n as int),
            r.source() == self@,
            r.wf(),
    {
        TakeExactly { iter: self, left: n }
    }
}

/// The view is the sequence of elements still to be yielded: the front
/// `left` elements of the wrapped cursor.
pub struct TakeExactly<T> {
    iter: Cursor<T>,
    left: usize,
}

impl<T> View for TakeExactly<T> {
    type V = Seq<T>;

    closed spec fn view(&self) -> Seq<T> {
        self.iter@.take(self.left as int)
    }
}

impl<T> TakeExactly<T> {
    /// The remaining elements of the wrapped cursor.
    pub closed spec fn source(&self) -> Seq<T> {
        self.iter@
    }

    /// The adaptor never promises more elements than its source holds;
    /// the constructor establishes this and `next` keeps it.
    pub closed spec fn wf(&self) -> bool {
        self.left <= self.iter@.len()
    }

    /// Unwraps the iterator, returning the underlying cursor.
    pub fn unwrap(self) -> (r: Cursor<T>)
        ensures
            r@ == self.source(),
    {
        self.iter
    }

    /// Yields the front element of the view.
    pub fn next(&mut self) -> (r: Option<T>)
        requires
            old(self).wf(),
        ensures
            final(self).wf(),
            old(self)@.len() == 0 ==> r is None && final(self)@ == old(self)@ && final(self).source() == old(self).source(),
            old(self)@.len() > 0 ==> r == Some(old(self)@[0]) && final(self)@ == old(self)@.drop_first()
                && final(self).source() == old(self).source().drop_first(),
    {
        if self.left == 0 {
            None
        } else {
            let r = self.iter.next();
            self.left -= 1;
            proof {
                assert(self@ =~= old(self)@.drop_first());
            }
            r
        }
    }

    /// The exact size estimate of the remaining output.
    pub fn size_hint(&self) -> (r: (usize, Option<usize>))
        requires
            self.wf(),
        ensures
            r.0 == self@.len(),
            r.1 == Some(self@.len() as usize),
    {
        (self.left, Some(self.left))
    }
}

} // verus!
