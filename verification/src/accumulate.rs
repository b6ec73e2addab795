//! An adaptor that scans its source from left to right, yielding the
//! running result of combining everything seen so far.

use vstd::prelude::*;

verus! {

use crate::cursor::{clone_exact, Cursor};
use vstd::pervasive::cloned;

/// Whether `f` can be asked to combine any two values.
pub open spec fn combine_fn_total<T, F: Fn(T, T) -> T>(f: F) -> bool {
    forall|a: T, b: T| #[trigger] f.requires((a, b))
}

pub trait AccumulateIterator<T>: Sized {
    /// Creates an iterator that scans from left to right over the input
    /// sequence, returning the accumulated result of combining the
    /// entire sequence up to that point.
    fn accumulate<F: Fn(T, T) -> T>(self, f: F) -> Accumulate<T, F>
        requires
            combine_fn_total::<T, F>(f),
    ;
}

impl<T> AccumulateIterator<T> for Cursor<T> {
    fn accumulate<F: Fn(T, T) -> T>(self, f: F) -> (r: Accumulate<T, F>)
        ensures
            r.source() == self@,
            r.acc() is None,
            r.func() == f,
            r.wf(),
    {
        Accumulate { iter: self, f, accum: None }
    }
}

/// A running accumulation: the source still to be combined and the
/// value accumulated so far, which is also the element most recently
/// yielded.
pub struct Accumulate<T, F> {
    iter: Cursor<T>,
    f: F,
    accum: Option<T>,
}

impl<T, F: Fn(T, T) -> T> Accumulate<T, F> {
    /// The remaining elements of the wrapped cursor.
    pub closed spec fn source(&self) -> Seq<T> {
        self.iter@
    }

    /// The accumulated value, once one element has been seen.
    pub closed spec fn acc(&self) -> Option<T> {
        self.accum
    }

    /// The combining function.
    pub closed spec fn func(&self) -> F {
        self.f
    }

    /// The combining function answers for any two values; the
    /// constructor establishes this and `next` keeps it.
    pub closed spec fn wf(&self) -> bool {
        combine_fn_total::<T, F>(self.f)
    }

    /// Unwraps the iterator, returning the underlying cursor.
    pub fn unwrap(self) -> (r: Cursor<T>)
        ensures
            r@ == self.source(),
    {
        let Accumulate { iter, .. } = self;
        iter
    }
}

impl<T: Clone, F: Fn(T, T) -> T> Accumulate<T, F> {
    /// Yields the next running value: the first source element as it
    /// stands, and from then on the result of combining the previous
    /// running value with the next source element. The running value is
    /// kept and a clone handed out, so the element type's clones must
    /// be exact for the output to repeat it faithfully.
    pub fn next(&mut self) -> (r: Option<T>)
        requires
            old(self).wf(),
            clone_exact::<T>(),
        ensures
            final(self).wf(),
            final(self).func() == old(self).func(),
            old(self).source().len() == 0 ==> r is None && final(self).source() == old(
                self,
            ).source() && final(self).acc() is None,
            old(self).source().len() > 0 ==> {
                &&& final(self).source() == old(self).source().drop_first()
                &&& r is Some
                &&& final(self).acc() == r
                &&& (old(self).acc() is None ==> r == Some(old(self).source()[0]))
                &&& (old(self).acc() matches Some(a) ==> call_ensures(
                    old(self).func(),
                    (a, old(self).source()[0]),
                    r->Some_0,
                ))
            },
    {
        match self.accum.take() {
            None => {
                match self.iter.next() {
                    None => None,
                    Some(e) => {
                        let out = e.clone();
                        proof {
                            assert(cloned::<T>(e, out));
                            assert(out == e);
                        }
                        self.accum = Some(e);
                        Some(out)
                    },
                }
            },
            Some(accum) => {
                match self.iter.next() {
                    None => {
                        self.accum = None;
                        None
                    },
                    Some(rhs) => {
                        let v = (self.f)(accum, rhs);
                        let out = v.clone();
                        proof {
                            assert(cloned::<T>(v, out));
                            assert(out == v);
                        }
                        self.accum = Some(v);
                        Some(out)
                    },
                }
            },
        }
    }
}

} // verus!
