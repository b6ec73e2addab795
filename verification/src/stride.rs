//! An adaptor that yields every `n`th element of its source, first
//! element included.

use vstd::prelude::*;

verus! {

use crate::cursor::Cursor;

/// The output of striding over `s` with step `n`: every `n`th element of
/// `s`, starting with the first.
pub open spec fn stride_seq<T>(s: Seq<T>, n: int) -> Seq<T>
    recommends
        n >= 1,
{
    Seq::new(((s.len() + n - 1) / n) as nat, |i: int| s[i * n])
}

pub trait StrideIterator<T>: Sized {
    /// Creates an iterator which yields every `n`th element of the input
    /// iterator, including the first.
    fn stride(self, n: usize) -> Stride<T>
        requires
            n >= 1,
    ;
}

impl<T> StrideIterator<T> for Cursor<T> {
    fn stride(self, n: usize) -> (r: Stride<T>)
        ensures
            r@ == stride_seq(self@, n as int),
            r.step() == n,
            r.source() == self@,
            r.wf(),
    {
        Stride { iter: self, stride: n }
    }
}

/// The view is the sequence of elements still to be yielded.
pub struct Stride<T> {
    iter: Cursor<T>,
    stride: usize,
}

impl<T> View for Stride<T> {
    type V = Seq<T>;

    closed spec fn view(&self) -> Seq<T> {
        stride_seq(self.iter@, self.stride as int)
    }
}

impl<T> Stride<T> {
    /// The step width the adaptor was created with.
    pub closed spec fn step(&self) -> int {
        self.stride as int
    }

    /// The remaining elements of the wrapped cursor.
    pub closed spec fn source(&self) -> Seq<T> {
        self.iter@
    }

    /// Striding is well formed when its step is at least one; the
    /// constructor establishes this and every method keeps it.
    pub closed spec fn wf(&self) -> bool {
        self.stride >= 1
    }

    /// Unwraps the iterator, returning the underlying cursor.
    pub fn unwrap(self) -> (r: Cursor<T>)
        ensures
            r@ == self.source(),
    {
        self.iter
    }

    /// Yields the front element of the view: the next element of the
    /// source, after which the following `n - 1` source elements are
    /// dropped.
    pub fn next(&mut self) -> (r: Option<T>)
        requires
            old(self).wf(),
        ensures
            final(self).wf() && final(self).step() == old(self).step(),
            old(self)@.len() == 0 ==> r is None && final(self)@ == old(self)@,
            old(self)@.len() > 0 ==> r == Some(old(self)@[0]) && final(self)@ == old(self)@.drop_first(),
            old(self).source().len() == 0 ==> final(self).source() == old(self).source(),
            0 < old(self).source().len() <= old(self).step() ==> final(self).source()
                == Seq::<T>::empty(),
            old(self).source().len() > old(self).step() ==> final(self).source() == old(self).source().skip(old(self).step()),
    {
        let ghost pre = self.iter@;
        let ghost n = self.stride as int;
        let v = match self.iter.next() {
            Some(v) => v,
            None => {
                proof {
                    assert((0 + n - 1) / n == 0) by (nonlinear_arith)
                        requires n >= 1;
                }
                return None;
            },
        };
        let mut skipped: usize = 0;
        while skipped < self.stride - 1 && self.iter.len() > 0
            invariant
                self.stride == n && n >= 1,
                skipped <= n - 1,
                skipped + 1 <= pre.len(),
                self.iter@ == pre.skip(skipped + 1),
            decreases n - 1 - skipped,
        {
            let _ = self.iter.next();
            skipped += 1;
        }
        proof {
            let post = self.iter@;
            let l = pre.len() as int;
            assert(post == pre.skip(skipped + 1));
            assert(skipped == n - 1 || l == skipped + 1);
            if l == skipped + 1 {
                // The source ran out inside the group: one element was
                // left in the old view and none remain.
                assert((l + n - 1) / n == 1) by (nonlinear_arith)
                    requires 1 <= l <= n;
                assert((0 + n - 1) / n == 0) by (nonlinear_arith)
                    requires n >= 1;
                assert(stride_seq(post, n) =~= stride_seq(pre, n).drop_first());
                assert(post =~= Seq::<T>::empty());
                if l == n {
                    assert(post =~= pre.skip(n));
                }
            } else {
                // A full group of n source elements was dropped.
                assert(post == pre.skip(n));
                assert(((l - n) + n - 1) / n == (l + n - 1) / n - 1) by (nonlinear_arith)
                    requires n <= l, n >= 1;
                assert forall|i: int| 0 <= i < stride_seq(post, n).len()
                    implies stride_seq(post, n)[i] == stride_seq(pre, n).drop_first()[i] by {
                    assert((i + 1) * n == i * n + n) by (nonlinear_arith);
                    assert(i * n >= 0) by (nonlinear_arith)
                        requires i >= 0, n >= 1;
                    assert((i + 1) * n <= l - 1) by (nonlinear_arith)
                        requires n >= 1, 0 <= i, i < ((l - n) + n - 1) / n;
                }
                assert(stride_seq(post, n) =~= stride_seq(pre, n).drop_first());
            }
        }
        Some(v)
    }

    /// The exact size estimate of the remaining output. Recomputing it
    /// after a successful pull gives exactly one less: the bound tracks
    /// the elements consumed.
    pub fn size_hint(&self) -> (r: (usize, Option<usize>))
        requires
            self.wf(),
        ensures
            r.0 == self@.len(),
            r.1 == Some(self@.len() as usize),
    {
        let l = self.iter.len();
        let q = l / self.stride;
        let m = l % self.stride;
        let n = if m != 0 {
            proof {
                assert(q < l) by (nonlinear_arith)
                    requires
                        self.stride >= 1,
                        l >= 0,
                        q == l as int / (self.stride as int),
                        m == l as int % (self.stride as int),
                        m != 0,
                ;
            }
            q + 1
        } else {
            q
        };
        proof {
            let li = l as int;
            let s = self.stride as int;
            assert(n == (li + s - 1) / s) by (nonlinear_arith)
                requires
                    s >= 1,
                    li >= 0,
                    q == li / s,
                    m == li % s,
                    n == if m != 0 { q + 1 } else { q as int },
            ;
        }
        (n, Some(n))
    }
}

} // verus!
