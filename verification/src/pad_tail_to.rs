//! An adaptor that pads a sequence to a minimum length: once the
//! source runs dry, a filler function is asked for the missing
//! elements, one per position.

use vstd::prelude::*;

verus! {

use crate::cursor::Cursor;

/// Whether `f` can be asked for a filler element at any position.
pub open spec fn filler_fn_total<T, F: Fn(usize) -> T>(f: F) -> bool {
    forall|i: usize| #[trigger] f.requires((i,))
}

pub trait PadTailToIterator<T>: Sized {
    /// Creates an iterator that ensures there are at least `n` elements
    /// in a sequence. If the input iterator is too short, the
    /// difference is made up with a filler value computed from the
    /// missing position.
    fn pad_tail_to<F: Fn(usize) -> T>(self, n: usize, filler: F) -> PadTailTo<T, F>
        requires
            filler_fn_total::<T, F>(filler),
    ;
}

impl<T> PadTailToIterator<T> for Cursor<T> {
    fn pad_tail_to<F: Fn(usize) -> T>(self, n: usize, filler: F) -> (r: PadTailTo<T, F>)
        ensures
            r.source() == self@,
            r.minimum() == n,
            r.position() == 0,
            r.func() == filler,
            r.wf(),
    {
        proof {
            crate::cursor::lemma_cursor_len_bounded(&self);
        }
        PadTailTo { iter: self, min: n, pos: 0, filler }
    }
}

/// A padded sequence: the source still to be yielded, the minimum
/// total length, and how many elements have been yielded so far.
pub struct PadTailTo<T, F> {
    iter: Cursor<T>,
    min: usize,
    pos: usize,
    filler: F,
}

impl<T, F: Fn(usize) -> T> PadTailTo<T, F> {
    /// The remaining elements of the wrapped cursor.
    pub closed spec fn source(&self) -> Seq<T> {
        self.iter@
    }

    /// The minimum number of elements the whole output must reach.
    pub closed spec fn minimum(&self) -> int {
        self.min as int
    }

    /// How many elements have been yielded so far.
    pub closed spec fn position(&self) -> int {
        self.pos as int
    }

    /// The filler function.
    pub closed spec fn func(&self) -> F {
        self.filler
    }

    /// The filler answers at every position, and the position counter
    /// cannot overflow while elements remain to be yielded.
    pub closed spec fn wf(&self) -> bool {
        filler_fn_total::<T, F>(self.filler) && self.pos + self.iter@.len() <= usize::MAX
    }

    /// Unwraps the iterator, returning the underlying cursor and filler
    /// closure.
    pub fn unwrap(self) -> (r: (Cursor<T>, F))
        ensures
            r.0@ == self.source(),
            r.1 == self.func(),
    {
        let PadTailTo { iter, filler, .. } = self;
        (iter, filler)
    }

    /// Yields the next element: the source's front while it lasts, then
    /// filler values for the positions up to the minimum length.
    pub fn next(&mut self) -> (r: Option<T>)
        requires
            old(self).wf(),
        ensures
            final(self).wf(),
            final(self).minimum() == old(self).minimum(),
            final(self).func() == old(self).func(),
            old(self).source().len() > 0 ==> r == Some(old(self).source()[0])
                && final(self).source() == old(self).source().drop_first()
                && final(self).position() == old(self).position() + 1,
            old(self).source().len() == 0 && old(self).position() < old(self).minimum() ==> (
            r matches Some(v) && call_ensures(
                old(self).func(),
                ((old(self).position() as usize),),
                v,
            ) && final(self).position() == old(self).position() + 1
                && final(self).source() == old(self).source()),
            old(self).source().len() == 0 && old(self).position() >= old(self).minimum() ==> r
                is None && final(self).position() == old(self).position() && final(self).source()
                == old(self).source(),
    {
        match self.iter.next() {
            None => {
                if self.pos < self.min {
                    let e = Some((self.filler)(self.pos));
                    self.pos += 1;
                    e
                } else {
                    None
                }
            },
            e => {
                self.pos += 1;
                e
            },
        }
    }
}

} // verus!
