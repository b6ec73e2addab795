//! Skipping exactly `n` elements of a cursor.
//!
//! Skipping more elements than the source holds is a caller error;
//! the precondition rules that case out.

use vstd::prelude::*;

verus! {

use crate::cursor::Cursor;

pub trait SkipExactlyIterator<T>: Sized {
    /// The elements the iterator has left to yield.
    spec fn elements(&self) -> Seq<T>;

    /// Skips exactly `n` elements from the iterator. The subject must
    /// hold at least `n` elements.
    fn skip_exactly(self, n: usize) -> Self
        requires
            n <= self.elements().len(),
    ;
}

impl<T> SkipExactlyIterator<T> for Cursor<T> {
    open spec fn elements(&self) -> Seq<T> {
        self@
    }

    fn skip_exactly(self, n: usize) -> (r: Cursor<T>)
        ensures
            r@ == self@.skip(n as int),
    {
        let ghost start = self@;
        let mut c = self;
        let mut i: usize = 0;
        while i < n
            invariant
                i <= n,
                n <= start.len(),
                c@ == start.skip(i as int),
            decreases n - i,
        {
            let _ = c.next();
            i += 1;
        }
        c
    }
}

} // verus!
