//! Adaptors that read a random-access source through a sequence of
//! indices: each index yields the source element there, or `None` when
//! the index is out of range.

use vstd::prelude::*;

verus! {

use crate::cursor::{clone_exact, Cursor};

/// The elements of `s` looked up at each index of `idxs`, in order;
/// out-of-range indices yield `None`.
pub open spec fn indexed_seq<T>(s: Seq<T>, idxs: Seq<usize>) -> Seq<Option<T>> {
    idxs.map_values(
        |i: usize|
            if i < s.len() {
                Some(s[i as int])
            } else {
                None
            },
    )
}

pub trait IndexedIterator<T: Clone>: Sized {
    /// Creates an iterator which uses `indices` as an indexer to the
    /// subject, consuming it.
    fn indexed(self, indices: Cursor<usize>) -> Indexed<T>;

    /// Creates an iterator which uses `indices` as an indexer to the
    /// subject, leaving the subject in place.
    fn indexed_view(&self, indices: Cursor<usize>) -> IndexedView<T>
        requires
            clone_exact::<T>(),
    ;
}

impl<T: Clone> IndexedIterator<T> for Cursor<T> {
    fn indexed(self, indices: Cursor<usize>) -> (r: Indexed<T>)
        ensures
            r@ == indexed_seq(self@, indices@),
            r.source() == self@,
            r.indices() == indices@,
    {
        Indexed { iter: self, indices }
    }

    fn indexed_view(&self, indices: Cursor<usize>) -> (r: IndexedView<T>)
        ensures
            r@ == indexed_seq(self@, indices@),
            r.source() == self@,
            r.indices() == indices@,
    {
        IndexedView { iter: self.checkpoint(), indices }
    }
}

/// The view is the sequence of lookups still to be yielded.
pub struct Indexed<T> {
    iter: Cursor<T>,
    indices: Cursor<usize>,
}

impl<T> View for Indexed<T> {
    type V = Seq<Option<T>>;

    closed spec fn view(&self) -> Seq<Option<T>> {
        indexed_seq(self.iter@, self.indices@)
    }
}

impl<T> Indexed<T> {
    /// The elements of the indexed source.
    pub closed spec fn source(&self) -> Seq<T> {
        self.iter@
    }

    /// The indices not yet looked up.
    pub closed spec fn indices(&self) -> Seq<usize> {
        self.indices@
    }

    /// Unwraps the iterator, returning the underlying indexed and
    /// indexer cursors.
    pub fn unwrap(self) -> (r: (Cursor<T>, Cursor<usize>))
        ensures
            r.0@ == self.source(),
            r.1@ == self.indices(),
    {
        let Indexed { iter, indices } = self;
        (iter, indices)
    }
}

impl<T: Clone> Indexed<T> {
    /// Yields the front lookup of the view.
    pub fn next(&mut self) -> (r: Option<Option<T>>)
        requires
            clone_exact::<T>(),
        ensures
            final(self).source() == old(self).source(),
            old(self)@.len() == 0 ==> r is None && final(self)@ == old(self)@ && final(self).indices() == old(self).indices(),
            old(self)@.len() > 0 ==> r == Some(old(self)@[0]) && final(self)@ == old(self)@.drop_first()
                && final(self).indices() == old(self).indices().drop_first(),
    {
        match self.indices.next() {
            None => None,
            Some(idx) => {
                let e = self.iter.idx(idx);
                proof {
                    assert(self@ =~= old(self)@.drop_first());
                }
                Some(e)
            },
        }
    }

    /// Yields the back lookup of the view.
    pub fn next_back(&mut self) -> (r: Option<Option<T>>)
        requires
            clone_exact::<T>(),
        ensures
            final(self).source() == old(self).source(),
            old(self)@.len() == 0 ==> r is None && final(self)@ == old(self)@ && final(self).indices() == old(self).indices(),
            old(self)@.len() > 0 ==> r == Some(old(self)@.last()) && final(self)@ == old(self)@.drop_last()
                && final(self).indices() == old(self).indices().drop_last(),
    {
        match self.indices.next_back() {
            None => None,
            Some(idx) => {
                let e = self.iter.idx(idx);
                proof {
                    assert(self@ =~= old(self)@.drop_last());
                }
                Some(e)
            },
        }
    }

    /// Random access into the view: the lookup at position `i` of the
    /// remaining indices.
    pub fn idx(&self, i: usize) -> (r: Option<Option<T>>)
        requires
            clone_exact::<T>(),
        ensures
            i < self@.len() ==> r == Some(self@[i as int]),
            i >= self@.len() ==> r is None,
    {
        match self.indices.idx(i) {
            None => None,
            Some(idx) => Some(self.iter.idx(idx)),
        }
    }

    /// How many lookups are still reachable.
    pub fn indexable(&self) -> (r: usize)
        ensures
            r == self@.len(),
    {
        self.indices.len()
    }
}

/// As [`Indexed`], over an independent copy of the source's remaining
/// elements, so the source itself stays untouched.
pub struct IndexedView<T> {
    iter: Cursor<T>,
    indices: Cursor<usize>,
}

impl<T> View for IndexedView<T> {
    type V = Seq<Option<T>>;

    closed spec fn view(&self) -> Seq<Option<T>> {
        indexed_seq(self.iter@, self.indices@)
    }
}

impl<T> IndexedView<T> {
    /// The elements of the indexed source copy.
    pub closed spec fn source(&self) -> Seq<T> {
        self.iter@
    }

    /// The indices not yet looked up.
    pub closed spec fn indices(&self) -> Seq<usize> {
        self.indices@
    }

    /// Unwraps the iterator, returning the source copy and the indexer
    /// cursor.
    pub fn unwrap(self) -> (r: (Cursor<T>, Cursor<usize>))
        ensures
            r.0@ == self.source(),
            r.1@ == self.indices(),
    {
        let IndexedView { iter, indices } = self;
        (iter, indices)
    }
}

impl<T: Clone> IndexedView<T> {
    /// Yields the front lookup of the view.
    pub fn next(&mut self) -> (r: Option<Option<T>>)
        requires
            clone_exact::<T>(),
        ensures
            final(self).source() == old(self).source(),
            old(self)@.len() == 0 ==> r is None && final(self)@ == old(self)@ && final(self).indices() == old(self).indices(),
            old(self)@.len() > 0 ==> r == Some(old(self)@[0]) && final(self)@ == old(self)@.drop_first()
                && final(self).indices() == old(self).indices().drop_first(),
    {
        match self.indices.next() {
            None => None,
            Some(idx) => {
                let e = self.iter.idx(idx);
                proof {
                    assert(self@ =~= old(self)@.drop_first());
                }
                Some(e)
            },
        }
    }

    /// Yields the back lookup of the view.
    pub fn next_back(&mut self) -> (r: Option<Option<T>>)
        requires
            clone_exact::<T>(),
        ensures
            final(self).source() == old(self).source(),
            old(self)@.len() == 0 ==> r is None && final(self)@ == old(self)@ && final(self).indices() == old(self).indices(),
            old(self)@.len() > 0 ==> r == Some(old(self)@.last()) && final(self)@ == old(self)@.drop_last()
                && final(self).indices() == old(self).indices().drop_last(),
    {
        match self.indices.next_back() {
            None => None,
            Some(idx) => {
                let e = self.iter.idx(idx);
                proof {
                    assert(self@ =~= old(self)@.drop_last());
                }
                Some(e)
            },
        }
    }

    /// Random access into the view: the lookup at position `i` of the
    /// remaining indices.
    pub fn idx(&self, i: usize) -> (r: Option<Option<T>>)
        requires
            clone_exact::<T>(),
        ensures
            i < self@.len() ==> r == Some(self@[i as int]),
            i >= self@.len() ==> r is None,
    {
        match self.indices.idx(i) {
            None => None,
            Some(idx) => Some(self.iter.idx(idx)),
        }
    }

    /// How many lookups are still reachable.
    pub fn indexable(&self) -> (r: usize)
        ensures
            r == self@.len(),
    {
        self.indices.len()
    }
}

} // verus!
