//! An adaptor that yields the cartesian product of two sources in
//! row-major order.
//!
//! The right-hand source is replayed for every element of the left-hand
//! one, which is why the adaptor keeps a checkpoint of the right
//! source's starting state and restores it whenever a row is finished.

use vstd::prelude::*;

verus! {

use crate::cursor::{clone_exact, Cursor};
use vstd::pervasive::cloned;

/// All pairs of elements of `ls` and `rs` in row-major order: for each
/// element of `ls` in turn, that element paired with every element of
/// `rs` in order.
pub open spec fn product_seq<T0, T1>(ls: Seq<T0>, rs: Seq<T1>) -> Seq<(T0, T1)>
    decreases ls.len(),
{
    if ls.len() == 0 {
        Seq::empty()
    } else {
        rs.map_values(|e: T1| (ls[0], e)) + product_seq(ls.drop_first(), rs)
    }
}

/// The product of an `m`-element and an `n`-element sequence holds
/// `m * n` pairs.
pub proof fn lemma_product_seq_len<T0, T1>(ls: Seq<T0>, rs: Seq<T1>)
    ensures
        product_seq(ls, rs).len() == ls.len() * rs.len(),
    decreases ls.len(),
{
    if ls.len() > 0 {
        lemma_product_seq_len(ls.drop_first(), rs);
        assert(ls.len() * rs.len() == rs.len() + (ls.len() - 1) * rs.len()) by (nonlinear_arith);
    }
}

/// The pair at row `i`, column `j` of the product is exactly
/// `(ls[i], rs[j])`: the output is row-major and complete.
pub proof fn lemma_product_seq_index<T0, T1>(ls: Seq<T0>, rs: Seq<T1>, i: int, j: int)
    requires
        0 <= i < ls.len(),
        0 <= j < rs.len(),
    ensures
        0 <= i * rs.len() + j < product_seq(ls, rs).len(),
        product_seq(ls, rs)[i * rs.len() + j] == (ls[i], rs[j]),
    decreases i,
{
    lemma_product_seq_len(ls, rs);
    assert((i + 1) * rs.len() <= ls.len() * rs.len() && 0 <= i * rs.len() + j) by (nonlinear_arith)
        requires 0 <= i < ls.len(), 0 <= j < rs.len();
    assert((i + 1) * rs.len() == i * rs.len() + rs.len()) by (nonlinear_arith);
    let n = rs.len() as int;
    if i == 0 {
        assert(product_seq(ls, rs)[j] == rs.map_values(|e: T1| (ls[0], e))[j]);
        assert(i * n == 0) by (nonlinear_arith)
            requires i == 0;
    } else {
        lemma_product_seq_index(ls.drop_first(), rs, i - 1, j);
        lemma_product_seq_len(ls.drop_first(), rs);
        assert((i - 1) * n == i * n - n) by (nonlinear_arith);
        assert(i * n + j - n == (i - 1) * n + j);
        assert(product_seq(ls, rs) == rs.map_values(|e: T1| (ls[0], e)) + product_seq(
            ls.drop_first(),
            rs,
        ));
        assert(product_seq(ls, rs)[i * n + j] == product_seq(ls.drop_first(), rs)[(i - 1) * n + j]);
        assert(ls.drop_first()[i - 1] == ls[i]);
    }
}

pub trait CartesianProductIterator<T0>: Sized {
    /// Creates an iterator that yields the cartesian product of two
    /// input iterators, rows ordered by the left iterator's elements.
    fn cartesian_product<T1: Clone>(self, right: Cursor<T1>) -> CartesianProduct<T0, T1>
        requires
            clone_exact::<T1>(),
    ;
}

impl<T0> CartesianProductIterator<T0> for Cursor<T0> {
    fn cartesian_product<T1: Clone>(self, right: Cursor<T1>) -> (r: CartesianProduct<T0, T1>)
        ensures
            r@ == product_seq(self@, right@),
            r.wf(),
            r.sources() == (self@, right@),
    {
        let right_run = right.checkpoint();
        CartesianProduct { left: self, right: right_run, right_checkpoint: right, left_value: None }
    }
}

/// The view is the sequence of pairs still to be yielded: the rest of
/// the row in progress, then a full row for every remaining left
/// element.
pub struct CartesianProduct<T0, T1> {
    left: Cursor<T0>,
    right: Cursor<T1>,
    right_checkpoint: Cursor<T1>,
    left_value: Option<T0>,
}

impl<T0, T1> View for CartesianProduct<T0, T1> {
    type V = Seq<(T0, T1)>;

    closed spec fn view(&self) -> Seq<(T0, T1)> {
        (match self.left_value {
            Some(a) => self.right@.map_values(|e: T1| (a, e)),
            None => Seq::empty(),
        }) + product_seq(self.left@, self.right_checkpoint@)
    }
}

impl<T0, T1> CartesianProduct<T0, T1> {
    /// The remaining left elements and the full right row.
    pub closed spec fn sources(&self) -> (Seq<T0>, Seq<T1>) {
        (self.left@, self.right_checkpoint@)
    }

    /// Between rows the right cursor stands at the checkpoint; the
    /// constructor establishes this and `next` keeps it.
    pub closed spec fn wf(&self) -> bool {
        self.left_value is None ==> self.right@ == self.right_checkpoint@
    }
}

impl<T0: Clone, T1: Clone> CartesianProduct<T0, T1> {
    /// Yields the front pair of the view. The left element of a row is
    /// handed out once per pair and the right source is replayed once
    /// per row, so both element types' clones must be exact for the
    /// output to repeat them faithfully.
    pub fn next(&mut self) -> (r: Option<(T0, T1)>)
        requires
            old(self).wf(),
            clone_exact::<T0>(),
            clone_exact::<T1>(),
        ensures
            final(self).wf(),
            final(self).sources().1 == old(self).sources().1,
            old(self)@.len() == 0 ==> r is None && final(self)@ == old(self)@,
            old(self)@.len() > 0 ==> r == Some(old(self)@[0]) && final(self)@ == old(self)@.drop_first(),
    {
        loop
            invariant
                self.wf(),
                clone_exact::<T0>(),
                clone_exact::<T1>(),
                self@ == old(self)@,
                self.right_checkpoint@ == old(self).right_checkpoint@,
            decreases self.left@.len(),
        {
            let mut row_done = false;
            match &self.left_value {
                Some(a) => {
                    let e0 = a.clone();
                    proof {
                        assert(cloned::<T0>(*a, e0));
                        assert(e0 == *a);
                    }
                    match self.right.next() {
                        Some(e1) => {
                            proof {
                                assert(self@ =~= old(self)@.drop_first());
                            }
                            return Some((e0, e1));
                        },
                        None => {
                            row_done = true;
                        },
                    }
                },
                None => {},
            }
            if row_done {
                self.left_value = None;
                self.right = self.right_checkpoint.checkpoint();
            }
            match self.left.next() {
                Some(e0) => {
                    self.left_value = Some(e0);
                    proof {
                        assert(self@ =~= old(self)@);
                    }
                },
                None => {
                    proof {
                        assert(self@ =~= old(self)@);
                    }
                    return None;
                },
            }
        }
    }

    /// The exact size estimate of the remaining output: the rest of the
    /// current row plus full rows for the remaining left elements.
    pub fn size_hint(&self) -> (r: (usize, Option<usize>))
        requires
            self@.len() <= usize::MAX,
        ensures
            r.0 == self@.len(),
            r.1 == Some(self@.len() as usize),
    {
        proof {
            lemma_product_seq_len(self.left@, self.right_checkpoint@);
        }
        let row = match &self.left_value {
            Some(_) => self.right.len(),
            None => 0,
        };
        let m = self.left.len();
        let n = self.right_checkpoint.len();
        proof {
            assert(self.left@.len() * self.right_checkpoint@.len() <= self@.len()) by (nonlinear_arith)
                requires
                    self@.len() == (if self.left_value is Some { self.right@.len() } else { 0nat })
                        + self.left@.len() * self.right_checkpoint@.len(),
            ;
            assert(m * n == self.left@.len() * self.right_checkpoint@.len());
        }
        let total = row + mul_fits(m, n);
        (total, Some(total))
    }
}

/// The product of two in-range factors, callable only where the result
/// is known to fit.
fn mul_fits(a: usize, b: usize) -> (r: usize)
    requires
        a * b <= usize::MAX,
    ensures
        r == a * b,
{
    a * b
}

} // verus!
