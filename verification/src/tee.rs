//! Fan-out of a single sequence into two independently paced handles.
//!
//! `tee` splits one cursor into two handles that each replay the source
//! sequence in full, in any interleaving of pulls. The handles share one
//! upstream cursor and a FIFO buffer: the leading handle pulls upstream
//! and leaves a copy of each element for the lagging handle, which
//! drains the buffer. Verified code cannot hide that sharing behind
//! reference-counted interior mutability, so the shared state is a value
//! of its own, handed to each pull by mutable reference.
//!
//! Replay equivalence is stated by the contracts here: `tee` starts both
//! handles on the same stream, equal to the source sequence; each pull
//! by one handle takes exactly the front of that handle's stream and
//! leaves the sibling's stream untouched, whatever the interleaving; and
//! `drain` hands back a handle's whole stream at once.

use vstd::prelude::*;

verus! {

use std::collections::VecDeque;
use crate::cursor::{clone_exact, Cursor};
use vstd::pervasive::cloned;

pub trait TeeIterator<T>: Sized {
    /// Creates a pair of handles that will each yield the source's
    /// sequence of values, together with the state they share.
    fn tee(self) -> (Tee, Tee, TeeState<T>);
}

impl<T> TeeIterator<T> for Cursor<T> {
    fn tee(self) -> (r: (Tee, Tee, TeeState<T>))
        ensures
            r.2.wf(),
            r.0.pos() == 0 && r.1.pos() == 0,
            r.2.consistent(0),
            r.2.stream(0) == self@,
            r.2.produced() == 0,
            r.2.low() == 0,
            r.2.buffered() == 0,
    {
        proof {
            crate::cursor::lemma_cursor_len_bounded(&self);
        }
        let tee0 = Tee { this_next: 0 };
        let tee1 = Tee { this_next: 0 };
        let state = TeeState { iter: self, iter_next: 0, buffer: VecDeque::new() };
        proof {
            assert(state.stream(0) =~= state.iter@);
        }
        (tee0, tee1, state)
    }
}

/// The bookkeeping shared by the two handles of one `tee` call: the
/// upstream cursor, how many elements have been pulled from it, and the
/// buffered elements the lagging handle has not yet consumed.
pub struct TeeState<T> {
    iter: Cursor<T>,
    iter_next: usize,
    buffer: VecDeque<T>,
}

impl<T> TeeState<T> {
    /// How many elements have been pulled from the upstream cursor.
    pub closed spec fn produced(&self) -> int {
        self.iter_next as int
    }

    /// How many elements sit in the shared buffer.
    pub closed spec fn buffered(&self) -> nat {
        self.buffer@.len()
    }

    /// The position of the most lagging consumer the buffer can serve.
    pub closed spec fn low(&self) -> int {
        self.iter_next - self.buffer@.len()
    }

    /// The buffer never outgrows the produced count, and the produced
    /// count together with what upstream still holds stays within the
    /// position counter's range.
    pub closed spec fn wf(&self) -> bool {
        self.buffer@.len() <= self.iter_next && self.iter_next + self.iter@.len() <= usize::MAX
    }

    /// The buffer holds exactly the lag between the produced count and
    /// the most lagging position: knowing two of `buffered`, `produced`
    /// and `low` gives the third.
    pub proof fn lemma_buffered_is_lag(&self)
        ensures
            self.buffered() == self.produced() - self.low(),
    {
    }

    /// A handle position the state can serve: the frontier, or the
    /// lagging position at the front of the buffer.
    pub closed spec fn consistent(&self, c: int) -> bool {
        c == self.produced() || c == self.low()
    }

    /// The elements a handle standing at `c` has yet to yield: the
    /// buffered elements from `c` on, then everything upstream.
    pub closed spec fn stream(&self, c: int) -> Seq<T> {
        self.buffer@.skip(c - self.low()) + self.iter@
    }
}

/// One of the two handles of a `tee` call. It holds only its own
/// position; each pull hands in the shared state explicitly.
pub struct Tee {
    this_next: usize,
}

impl Tee {
    /// How many elements this handle has consumed.
    pub closed spec fn pos(&self) -> int {
        self.this_next as int
    }

    /// Yields the front element of this handle's stream, leaving the
    /// sibling handle's stream untouched. Elements are buffered as
    /// clones for the lagging handle, so the element type's clones must
    /// be exact for both handles to see the same sequence.
    pub fn next<T: Clone>(&mut self, state: &mut TeeState<T>) -> (r: Option<T>)
        requires
            old(state).wf(),
            old(state).consistent(old(self).pos()),
            clone_exact::<T>(),
        ensures
            final(state).wf(),
            final(state).consistent(final(self).pos()),
            old(state).stream(old(self).pos()).len() == 0 ==> r is None && *final(self) == *old(
                self,
            ) && final(state).stream(final(self).pos()).len() == 0,
            old(state).stream(old(self).pos()).len() > 0 ==> {
                &&& r == Some(old(state).stream(old(self).pos())[0])
                &&& final(self).pos() == old(self).pos() + 1
                &&& final(state).stream(final(self).pos()) == old(state).stream(
                    old(self).pos(),
                ).drop_first()
            },
            forall|c: int|
                old(state).consistent(c) && c != old(self).pos() ==> final(state).consistent(c)
                    && final(state).stream(c) == old(state).stream(c),
            old(state).buffered() == 0 ==> forall|c: int|
                old(state).consistent(c) ==> final(state).consistent(c) && final(state).stream(c)
                    == old(state).stream(c),
            old(self).pos() == old(state).produced() ==> final(state).low() == old(state).low()
                && final(state).produced() == old(state).produced() + (
            if r is Some {
                1int
            } else {
                0int
            }),
            old(self).pos() < old(state).produced() ==> final(state).produced() == old(
                state,
            ).produced() && final(state).low() == old(state).low() + 1,
            old(self).pos() == old(state).produced() && r is Some ==> final(state).buffered()
                == old(state).buffered() + 1,
            old(self).pos() == old(state).produced() && r is None ==> final(state).buffered()
                == old(state).buffered(),
            old(self).pos() < old(state).produced() ==> final(state).buffered() == old(
                state,
            ).buffered() - 1,
    {
        if self.this_next == state.iter_next {
            match state.iter.next() {
                None => {
                    proof {
                        assert(old(state).stream(old(self).pos()) =~= state.iter@);
                    }
                    None
                },
                Some(e) => {
                    self.this_next += 1;
                    state.iter_next += 1;
                    state.buffer.push_back(e.clone());
                    proof {
                        let b = state.buffer@;
                        assert(cloned::<T>(e, b.last()));
                        assert(b.last() == e);
                        assert(state.low() == old(state).low());
                        assert forall|c: int| old(state).consistent(c) implies state.stream(c)
                            == old(state).stream(c) by {
                            assert(state.stream(c) =~= old(state).stream(c));
                        }
                        assert(state.stream(self.pos()) =~= old(state).stream(
                            old(self).pos(),
                        ).drop_first());
                    }
                    Some(e)
                },
            }
        } else if self.this_next < state.iter_next {
            match state.buffer.pop_front() {
                Some(e) => {
                    self.this_next += 1;
                    proof {
                        assert(old(state).stream(old(self).pos())[0] == e);
                        assert(state.stream(self.pos()) =~= old(state).stream(
                            old(self).pos(),
                        ).drop_first());
                        assert forall|c: int|
                            old(state).consistent(c) && c != old(self).pos() implies state.consistent(
                            c,
                        ) && state.stream(c) == old(state).stream(c) by {
                            assert(c == old(state).produced());
                            assert(state.stream(c) =~= old(state).stream(c));
                        }
                    }
                    Some(e)
                },
                None => {
                    proof {
                        assert(false);
                    }
                    None
                },
            }
        } else {
            proof {
                assert(false);
            }
            None
        }
    }

    /// The exact size estimate of this handle's stream: what upstream
    /// still holds, plus the buffered elements this handle has not yet
    /// consumed when it is the lagging one.
    pub fn size_hint<T>(&self, state: &TeeState<T>) -> (r: (usize, Option<usize>))
        requires
            state.wf(),
            state.consistent(self.pos()),
        ensures
            r.0 == state.stream(self.pos()).len(),
            r.1 == Some((state.stream(self.pos()).len() as usize),),
    {
        let behind = state.iter_next - self.this_next;
        let n = behind + state.iter.len();
        (n, Some(n))
    }

    /// Pulls this handle to exhaustion, returning every element of its
    /// stream in order; the sibling handle's stream is untouched.
    pub fn drain<T: Clone>(&mut self, state: &mut TeeState<T>) -> (r: Vec<T>)
        requires
            old(state).wf(),
            old(state).consistent(old(self).pos()),
            clone_exact::<T>(),
        ensures
            final(state).wf(),
            final(state).consistent(final(self).pos()),
            r@ == old(state).stream(old(self).pos()),
            final(state).stream(final(self).pos()).len() == 0,
            forall|c: int|
                old(state).consistent(c) && c != old(self).pos() ==> final(state).consistent(c)
                    && final(state).stream(c) == old(state).stream(c),
            old(state).buffered() == 0 ==> forall|c: int|
                old(state).consistent(c) ==> final(state).consistent(c) && final(state).stream(c)
                    == old(state).stream(c),
            final(self).pos() == old(self).pos() + old(state).stream(old(self).pos()).len(),
            final(state).produced() == final(self).pos(),
            final(state).low() == (if old(self).pos() < old(state).produced() {
                old(state).produced()
            } else {
                old(state).low()
            }),
    {
        let mut out: Vec<T> = Vec::new();
        proof {
            assert(out@ + state.stream(self.pos()) =~= state.stream(self.pos()));
        }
        loop
            invariant
                state.wf(),
                state.consistent(self.pos()),
                clone_exact::<T>(),
                out@ + state.stream(self.pos()) == old(state).stream(old(self).pos()),
                self.pos() == old(self).pos() + out@.len(),
                state.produced() == (if self.pos() > old(state).produced() {
                    self.pos()
                } else {
                    old(state).produced()
                }),
                state.low() == (if old(self).pos() < old(state).produced() {
                    if self.pos() < old(state).produced() {
                        self.pos()
                    } else {
                        old(state).produced()
                    }
                } else {
                    old(state).low()
                }),
                forall|c: int|
                    old(state).consistent(c) && (c != old(self).pos() || old(state).buffered()
                        == 0) ==> state.consistent(c) && state.stream(c) == old(state).stream(c) && (
                    c == self.pos() ==> state.buffered() == 0),
            decreases state.stream(self.pos()).len(),
        {
            match self.next(state) {
                Some(e) => {
                    out.push(e);
                    proof {
                        assert(out@ + state.stream(self.pos()) =~= old(state).stream(
                            old(self).pos(),
                        ));
                    }
                },
                None => {
                    proof {
                        assert(out@ =~= old(state).stream(old(self).pos()));
                        assert(self.pos() == state.produced());
                    }
                    return out;
                },
            }
        }
    }
}

} // verus!
