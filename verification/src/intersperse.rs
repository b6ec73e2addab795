//! An adaptor that yields a separator value between each pair of
//! adjacent elements of its source.

use vstd::prelude::*;

verus! {

use crate::cursor::{clone_exact, Cursor};
use vstd::pervasive::cloned;

/// `s` with `inject` placed before each element: the tail of an
/// interspersed sequence after its first element.
pub open spec fn weave_seq<T>(inject: T, s: Seq<T>) -> Seq<T>
    decreases s.len(),
{
    if s.len() == 0 {
        Seq::empty()
    } else {
        seq![inject, s[0]] + weave_seq(inject, s.drop_first())
    }
}

/// The output of interspersing `inject` through `s`: the separator
/// appears between adjacent elements, never first or last.
pub open spec fn intersperse_seq<T>(s: Seq<T>, inject: T) -> Seq<T> {
    if s.len() == 0 {
        Seq::empty()
    } else {
        seq![s[0]] + weave_seq(inject, s.drop_first())
    }
}

/// The woven tail holds two elements, separator and element, for each
/// element of `s`.
pub proof fn lemma_weave_seq_len<T>(inject: T, s: Seq<T>)
    ensures
        weave_seq(inject, s).len() == 2 * s.len(),
    decreases s.len(),
{
    if s.len() > 0 {
        lemma_weave_seq_len(inject, s.drop_first());
    }
}

pub trait IntersperseIterator<T>: Sized {
    /// Creates an iterator that yields `inject` between each element of
    /// the input iterator. `inject` will not appear as the first or last
    /// element of the resulting iterator.
    fn intersperse(self, inject: T) -> Intersperse<T>;
}

impl<T> IntersperseIterator<T> for Cursor<T> {
    fn intersperse(self, inject: T) -> (r: Intersperse<T>)
        ensures
            r@ == intersperse_seq(self@, inject),
            r.separator() == inject,
    {
        let mut iter = self;
        let look_ahead = iter.next();
        Intersperse { iter, look_ahead, inject, next_is_inject: false }
    }
}

/// The view is the sequence of elements still to be yielded.
pub struct Intersperse<T> {
    iter: Cursor<T>,
    look_ahead: Option<T>,
    inject: T,
    next_is_inject: bool,
}

impl<T> View for Intersperse<T> {
    type V = Seq<T>;

    closed spec fn view(&self) -> Seq<T> {
        match self.look_ahead {
            None => Seq::empty(),
            Some(a) => {
                let base = seq![a] + weave_seq(self.inject, self.iter@);
                if self.next_is_inject {
                    seq![self.inject] + base
                } else {
                    base
                }
            },
        }
    }
}

impl<T> Intersperse<T> {
    /// The separator the adaptor was created with.
    pub closed spec fn separator(&self) -> T {
        self.inject
    }
}

impl<T: Clone> Intersperse<T> {
    /// Yields the front element of the view. Separators are fresh clones
    /// of the injected value, so the element type's clones must be
    /// exact for the output to repeat it faithfully.
    pub fn next(&mut self) -> (r: Option<T>)
        requires
            clone_exact::<T>(),
        ensures
            final(self).separator() == old(self).separator(),
            old(self)@.len() == 0 ==> r is None && final(self)@ == old(self)@,
            old(self)@.len() > 0 ==> r == Some(old(self)@[0]) && final(self)@ == old(self)@.drop_first(),
    {
        if !self.next_is_inject {
            match self.look_ahead.take() {
                None => None,
                Some(e) => {
                    self.look_ahead = self.iter.next();
                    self.next_is_inject = true;
                    proof {
                        assert(self@ =~= old(self)@.drop_first());
                    }
                    Some(e)
                },
            }
        } else {
            if self.look_ahead.is_some() {
                self.next_is_inject = false;
                let e = self.inject.clone();
                proof {
                    assert(cloned::<T>(self.inject, e));
                    assert(e == self.inject);
                    assert(self@ =~= old(self)@.drop_first());
                }
                Some(e)
            } else {
                None
            }
        }
    }
}

impl<T> Intersperse<T> {
    /// The exact size estimate of the remaining output.
    pub fn size_hint(&self) -> (r: (usize, Option<usize>))
        requires
            self@.len() <= usize::MAX,
        ensures
            r.0 == self@.len(),
            r.1 == Some(self@.len() as usize),
    {
        proof {
            lemma_weave_seq_len(self.inject, self.iter@);
        }
        let n = match self.look_ahead {
            None => 0,
            Some(_) => {
                let base = 1 + self.iter.len() + self.iter.len();
                if self.next_is_inject {
                    base + 1
                } else {
                    base
                }
            },
        };
        (n, Some(n))
    }
}

} // verus!
