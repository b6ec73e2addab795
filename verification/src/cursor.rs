//! A pull-based sequence cursor: the upstream source that every adaptor
//! in this crate wraps.
//!
//! A `Cursor` owns the elements it has not yet yielded; its view is the
//! sequence of those remaining elements. It supports forward pull
//! (`next`), reverse pull (`next_back`), random access (`idx`), and an
//! exact size estimate (`size_hint`).

use vstd::prelude::*;

verus! {

use vstd::pervasive::cloned;

/// Whether `T`'s `Clone` implementation can only hand back a value equal
/// to the one cloned. Adaptors that buffer or replay elements (tee,
/// cartesian product, intersperse) promise to reproduce the source
/// sequence element for element; that promise rests on clones being
/// exact, so those adaptors require this of their element types.
pub open spec fn clone_exact<T: Clone>() -> bool {
    forall|a: T, b: T| cloned::<T>(a, b) ==> b == a
}

/// A cursor never holds more elements than a vector can: its remaining
/// length fits the machine's word.
pub proof fn lemma_cursor_len_bounded<T>(c: &Cursor<T>)
    ensures
        c@.len() <= usize::MAX,
{
    broadcast use vstd::std_specs::vec::axiom_spec_len;

    assert(vstd::std_specs::vec::spec_vec_len(&c.elems) == c.elems@.len());
}

/// A pull source over an owned vector of elements. The view is the
/// sequence of elements not yet consumed, front to back.
pub struct Cursor<T> {
    elems: Vec<T>,
}

impl<T> View for Cursor<T> {
    type V = Seq<T>;

    closed spec fn view(&self) -> Seq<T> {
        self.elems@
    }
}

impl<T> Cursor<T> {
    /// Wraps a vector as a cursor over its elements.
    pub fn new(elems: Vec<T>) -> (r: Cursor<T>)
        ensures
            r@ == elems@,
    {
        Cursor { elems }
    }

    /// Yields the front element, or `None` once the sequence is exhausted.
    pub fn next(&mut self) -> (r: Option<T>)
        ensures
            old(self)@.len() == 0 ==> r is None && final(self)@ == old(self)@,
            old(self)@.len() > 0 ==> r == Some(old(self)@[0]) && final(self)@ == old(self)@.drop_first(),
    {
        if self.elems.len() == 0 {
            None
        } else {
            Some(self.elems.remove(0))
        }
    }

    /// Yields the back element, or `None` once the sequence is exhausted.
    pub fn next_back(&mut self) -> (r: Option<T>)
        ensures
            old(self)@.len() == 0 ==> r is None && final(self)@ == old(self)@,
            old(self)@.len() > 0 ==> r == Some(old(self)@.last()) && final(self)@ == old(self)@.drop_last(),
    {
        self.elems.pop()
    }

    /// How many elements are still reachable.
    pub fn len(&self) -> (r: usize)
        ensures
            r == self@.len(),
    {
        self.elems.len()
    }

    /// The exact size estimate of the remaining sequence.
    pub fn size_hint(&self) -> (r: (usize, Option<usize>))
        ensures
            r.0 == self@.len(),
            r.1 == Some(self@.len() as usize),
    {
        (self.elems.len(), Some(self.elems.len()))
    }

    /// Drops the front `n` elements, as the host language's plain `skip`
    /// does: short sequences simply come up empty.
    pub fn skip(self, n: usize) -> (r: Cursor<T>)
        ensures
            n <= self@.len() ==> r@ == self@.skip(n as int),
            n > self@.len() ==> r@ == Seq::<T>::empty(),
    {
        let mut c = self;
        let ghost start = c@;
        let mut i: usize = 0;
        while i < n && c.elems.len() > 0
            invariant
                i <= n,
                i <= start.len() ==> c@ == start.skip(i as int),
                i > start.len() ==> c@ == Seq::<T>::empty(),
            decreases n - i,
        {
            let _ = c.next();
            i += 1;
        }
        proof {
            if n > start.len() {
                assert(c@ =~= Seq::<T>::empty());
            }
        }
        c
    }

    /// Keeps at most the front `n` elements, as the host language's plain
    /// `take` does.
    pub fn take(self, n: usize) -> (r: Cursor<T>)
        ensures
            n <= self@.len() ==> r@ == self@.take(n as int),
            n > self@.len() ==> r@ == self@,
    {
        let ghost start = self@;
        let mut c = self;
        if n <= c.elems.len() {
            c.elems.truncate(n);
            proof {
                assert(c@ =~= start.take(n as int));
            }
        }
        c
    }
}

impl<T: Clone> Cursor<T> {
    /// Random access: a clone of the element at `i` of the remaining
    /// sequence, without disturbing the cursor's position.
    pub fn idx(&self, i: usize) -> (r: Option<T>)
        ensures
            i < self@.len() ==> (r matches Some(e) && cloned::<T>(self@[i as int], e)),
            i >= self@.len() ==> r is None,
            clone_exact::<T>() && i < self@.len() ==> r == Some(self@[i as int]),
    {
        if i < self.elems.len() {
            Some(self.elems[i].clone())
        } else {
            None
        }
    }

    /// An independent cursor over the same remaining sequence, used by
    /// adaptors that must restart their source.
    pub fn checkpoint(&self) -> (r: Cursor<T>)
        requires
            clone_exact::<T>(),
        ensures
            r@ == self@,
    {
        let c = self.clone();
        proof {
            assert(c@ =~= self@);
        }
        c
    }
}

impl<T: Clone> Clone for Cursor<T> {
    /// Clones the remaining sequence element for element.
    fn clone(&self) -> (r: Self)
        ensures
            r@.len() == self@.len(),
            forall|i: int| 0 <= i < self@.len() ==> cloned::<T>(self@[i], #[trigger] r@[i]),
    {
        Cursor { elems: self.elems.clone() }
    }
}

} // verus!
