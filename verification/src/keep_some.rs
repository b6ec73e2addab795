//! An adaptor over a sequence of `Option` values that unwraps every
//! `Some` and discards every `None`.

use vstd::prelude::*;

verus! {

use crate::cursor::Cursor;

/// The elements kept from `s`: the payloads of its `Some` entries, in
/// order.
pub open spec fn kept_seq<T>(s: Seq<Option<T>>) -> Seq<T>
    decreases s.len(),
{
    if s.len() == 0 {
        Seq::empty()
    } else {
        match s[0] {
            Some(e) => seq![e] + kept_seq(s.drop_first()),
            None => kept_seq(s.drop_first()),
        }
    }
}

/// What remains of `s` after one forward pull: the leading `None`
/// entries and the first `Some` are gone; nothing remains if `s` holds
/// no `Some` at all.
pub open spec fn after_first_some<T>(s: Seq<Option<T>>) -> Seq<Option<T>>
    decreases s.len(),
{
    if s.len() == 0 {
        s
    } else {
        match s[0] {
            Some(e) => s.drop_first(),
            None => after_first_some(s.drop_first()),
        }
    }
}

/// What remains of `s` after one backward pull: the trailing `None`
/// entries and the last `Some` are gone; nothing remains if `s` holds
/// no `Some` at all.
pub open spec fn before_last_some<T>(s: Seq<Option<T>>) -> Seq<Option<T>>
    decreases s.len(),
{
    if s.len() == 0 {
        s
    } else {
        match s.last() {
            Some(e) => s.drop_last(),
            None => before_last_some(s.drop_last()),
        }
    }
}

/// No more elements are kept than the source holds.
pub proof fn lemma_kept_seq_len<T>(s: Seq<Option<T>>)
    ensures
        kept_seq(s).len() <= s.len(),
    decreases s.len(),
{
    if s.len() > 0 {
        lemma_kept_seq_len(s.drop_first());
    }
}

/// Removing a trailing `None` keeps the same elements; removing a
/// trailing `Some` removes exactly its payload.
pub proof fn lemma_kept_seq_back<T>(s: Seq<Option<T>>)
    requires
        s.len() > 0,
    ensures
        s.last() is None ==> kept_seq(s) == kept_seq(s.drop_last()),
        s.last() matches Some(e) ==> kept_seq(s) == kept_seq(s.drop_last()).push(e),
    decreases s.len(),
{
    if s.len() == 1 {
        assert(s.drop_first() =~= Seq::<Option<T>>::empty());
        assert(s.drop_last() =~= Seq::<Option<T>>::empty());
        match s.last() {
            Some(e) => {
                assert(kept_seq(s) =~= kept_seq(s.drop_last()).push(e));
            },
            None => {},
        }
    } else {
        lemma_kept_seq_back(s.drop_first());
        assert(s.drop_first().drop_last() =~= s.drop_last().drop_first());
        assert(s.drop_first().last() == s.last());
        assert(s.drop_last()[0] == s[0]);
        match s.last() {
            Some(e) => {
                match s[0] {
                    Some(h) => {
                        assert(kept_seq(s) == seq![h] + kept_seq(s.drop_first()));
                        assert(kept_seq(s.drop_first()) == kept_seq(s.drop_first().drop_last()).push(e));
                        assert(kept_seq(s.drop_last()) == seq![h] + kept_seq(s.drop_last().drop_first()));
                        assert(kept_seq(s) =~= kept_seq(s.drop_last()).push(e));
                    },
                    None => {
                        assert(kept_seq(s) =~= kept_seq(s.drop_last()).push(e));
                    },
                }
            },
            None => {},
        }
    }
}

pub trait KeepSomeIterator: Sized {
    /// Creates an iterator that, given a sequence of `Option` values,
    /// unwraps all `Some`s, and discards all `None`s.
    fn keep_some(self) -> KeepSome<Self>;
}

impl<T> KeepSomeIterator for Cursor<Option<T>> {
    fn keep_some(self) -> (r: KeepSome<Cursor<Option<T>>>)
        ensures
            r@ == kept_seq(self@),
            r.source() == self@,
    {
        KeepSome { iter: self }
    }
}

/// The view is the sequence of elements still to be yielded.
pub struct KeepSome<It> {
    iter: It,
}

impl<T> View for KeepSome<Cursor<Option<T>>> {
    type V = Seq<T>;

    closed spec fn view(&self) -> Seq<T> {
        kept_seq(self.iter@)
    }
}

impl<T> KeepSome<Cursor<Option<T>>> {
    /// The remaining elements of the wrapped cursor.
    pub closed spec fn source(&self) -> Seq<Option<T>> {
        self.iter@
    }

    /// Unwraps the iterator, returning the underlying cursor.
    pub fn unwrap(self) -> (r: Cursor<Option<T>>)
        ensures
            r@ == self.source(),
    {
        self.iter
    }

    /// Yields the front element of the view, discarding the `None`
    /// entries in front of it; the source keeps exactly what stands
    /// after that first kept element.
    pub fn next(&mut self) -> (r: Option<T>)
        ensures
            old(self)@.len() == 0 ==> r is None && final(self)@ == old(self)@,
            old(self)@.len() > 0 ==> r == Some(old(self)@[0]) && final(self)@ == old(self)@.drop_first(),
            final(self).source() == after_first_some(old(self).source()),
    {
        loop
            invariant
                kept_seq(self.iter@) == old(self)@,
                after_first_some(self.iter@) == after_first_some(old(self).source()),
            decreases self.iter@.len(),
        {
            match self.iter.next() {
                Some(Some(e)) => {
                    proof {
                        assert(self@ =~= old(self)@.drop_first());
                    }
                    return Some(e);
                },
                Some(None) => {},
                None => {
                    return None;
                },
            }
        }
    }

    /// Yields the back element of the view, discarding the `None`
    /// entries behind it; the source keeps exactly what stands before
    /// that last kept element.
    pub fn next_back(&mut self) -> (r: Option<T>)
        ensures
            old(self)@.len() == 0 ==> r is None && final(self)@ == old(self)@,
            old(self)@.len() > 0 ==> r == Some(old(self)@.last()) && final(self)@ == old(self)@.drop_last(),
            final(self).source() == before_last_some(old(self).source()),
    {
        loop
            invariant
                kept_seq(self.iter@) == old(self)@,
                before_last_some(self.iter@) == before_last_some(old(self).source()),
            decreases self.iter@.len(),
        {
            proof {
                if self.iter@.len() > 0 {
                    lemma_kept_seq_back(self.iter@);
                }
            }
            match self.iter.next_back() {
                Some(Some(e)) => {
                    proof {
                        assert(old(self)@ == self@.push(e));
                        assert(old(self)@.drop_last() =~= self@);
                        assert(old(self)@.last() == e);
                    }
                    return Some(e);
                },
                Some(None) => {},
                None => {
                    return None;
                },
            }
        }
    }

    /// The size estimate of the remaining output: anything from none to
    /// all of the source's elements may be kept.
    pub fn size_hint(&self) -> (r: (usize, Option<usize>))
        ensures
            r.0 == 0,
            r.1 == Some(self.source().len() as usize),
            self@.len() <= self.source().len(),
    {
        proof {
            lemma_kept_seq_len(self.iter@);
        }
        (0, Some(self.iter.len()))
    }
}

} // verus!
