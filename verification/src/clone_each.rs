//! An adaptor that hands out each element of the wrapped cursor.
//!
//! In a setting where sequences yield borrowed elements, this is the step
//! that turns them into owned ones. A [`Cursor`] already owns its
//! elements, so the adaptor yields them directly and its contract is
//! exact: the output is the wrapped cursor's remaining sequence.

use vstd::prelude::*;

verus! {

use crate::cursor::Cursor;

pub trait CloneEachIterator<T>: Sized {
    /// Creates an iterator which yields each element of the input in turn.
    fn clone_each(self) -> CloneEach<T>;
}

impl<T> CloneEachIterator<T> for Cursor<T> {
    fn clone_each(self) -> (r: CloneEach<T>)
        ensures
            r@ == self@,
    {
        CloneEach { iter: self }
    }
}

/// The view is the sequence of elements still to be yielded.
pub struct CloneEach<T> {
    iter: Cursor<T>,
}

impl<T> View for CloneEach<T> {
    type V = Seq<T>;

    closed spec fn view(&self) -> Seq<T> {
        self.iter@
    }
}

impl<T> CloneEach<T> {
    /// Unwraps the iterator, returning the underlying cursor.
    pub fn unwrap(self) -> (r: Cursor<T>)
        ensures
            r@ == self@,
    {
        self.iter
    }

    /// Yields the next element of the view, front first.
    pub fn next(&mut self) -> (r: Option<T>)
        ensures
            old(self)@.len() == 0 ==> r is None && final(self)@ == old(self)@,
            old(self)@.len() > 0 ==> r == Some(old(self)@[0]) && final(self)@ == old(self)@.drop_first(),
    {
        self.iter.next()
    }

    /// Yields the next element of the view, back first.
    pub fn next_back(&mut self) -> (r: Option<T>)
        ensures
            old(self)@.len() == 0 ==> r is None && final(self)@ == old(self)@,
            old(self)@.len() > 0 ==> r == Some(old(self)@.last()) && final(self)@ == old(self)@.drop_last(),
    {
        self.iter.next_back()
    }

    /// The exact size estimate of the remaining output.
    pub fn size_hint(&self) -> (r: (usize, Option<usize>))
        ensures
            r.0 == self@.len(),
            r.1 == Some(self@.len() as usize),
    {
        self.iter.size_hint()
    }
}

} // verus!
