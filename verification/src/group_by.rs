//! Run-length grouping: a sequence of `(key, Group)` pairs, one pair per
//! maximal run of elements sharing a key, each `Group` an escapable
//! sub-iterator over its run.
//!
//! The outer iterator and the live `Group` cooperate through shared
//! bookkeeping: when a `Group` meets the first element of the next run,
//! it pushes that `(key, element)` pair back for the outer iterator to
//! resume from, so no element is lost across the seam. Verified code
//! cannot hide that sharing behind reference-counted interior
//! mutability, so a `Group` pulls through a mutable reference to its
//! owner. A serial number ties each `Group` to its owner and enforces
//! the discipline that only the most recently issued group is driven.
//!
//! Abandoning a `Group` early is allowed and intentionally lossy: the
//! rest of its run is skipped when the outer iterator is next driven.

use vstd::prelude::*;

verus! {

use crate::cursor::{clone_exact, Cursor};
use vstd::pervasive::cloned;
use vstd::std_specs::cmp::PartialEqSpec;

/// Whether `f` can be asked for the key of every element.
pub open spec fn key_fn_total<T, K, F: Fn(&T) -> K>(f: F) -> bool {
    forall|t: &T| #[trigger] f.requires((t,))
}

/// Whether some answer `f` can give for `t`'s key is equal, under the
/// key type's equality specification, to the key in `last`.
pub open spec fn key_matches_last<T, K: PartialEq, F: Fn(&T) -> K>(
    f: F,
    t: T,
    last: Option<K>,
) -> bool {
    exists|ki: K|
        #[trigger] call_ensures(f, (&t,), ki) && (K::obeys_eq_spec() ==> match last {
            Some(lk) => ki.eq_spec(&lk),
            None => false,
        })
}

/// The elements of a collected grouping, in order: each group's
/// element list concatenated.
pub open spec fn concat_group_elems<K, T>(rows: Seq<(K, Vec<T>)>) -> Seq<T>
    decreases rows.len(),
{
    if rows.len() == 0 {
        Seq::empty()
    } else {
        concat_group_elems(rows.drop_last()) + rows.last().1@
    }
}

pub trait GroupByIterator<T>: Sized {
    /// Creates an iterator that yields a succession of `(key, group)`
    /// pairs. Each group yields the successive elements of the input
    /// whose key, computed by `group`, is the same.
    fn group_by<K: PartialEq + Clone, F: Fn(&T) -> K>(self, group: F) -> GroupBy<T, K, F>
        requires
            key_fn_total::<T, K, F>(group),
    ;
}

impl<T> GroupByIterator<T> for Cursor<T> {
    fn group_by<K: PartialEq + Clone, F: Fn(&T) -> K>(self, group: F) -> (r: GroupBy<T, K, F>)
        ensures
            r.wf(),
            r.pool() == self@,
            r.pending() is None,
            r.last_key() is None,
            r.keyfn() == group,
    {
        proof {
            crate::cursor::lemma_cursor_len_bounded(&self);
        }
        GroupBy {
            state: GroupByShared {
                iter: self,
                group,
                last_group: None,
                push_back: None,
                serial: 0,
            },
        }
    }
}

/// The bookkeeping the outer iterator and the live group cooperate
/// through: the upstream cursor, the key function, the previous run's
/// key, and the pushed-back first element of the next run.
pub struct GroupByShared<T, K, F> {
    iter: Cursor<T>,
    group: F,
    last_group: Option<K>,
    push_back: Option<(K, T)>,
    serial: usize,
}

/// The outer iterator of a grouping: yields one `(key, Group)` pair per
/// run of equal keys.
pub struct GroupBy<T, K, F> {
    state: GroupByShared<T, K, F>,
}

impl<T, K, F: Fn(&T) -> K> GroupBy<T, K, F> {
    /// The elements upstream has not yet handed out.
    pub closed spec fn upstream(&self) -> Seq<T> {
        self.state.iter@
    }

    /// The pushed-back `(key, element)` pair the next group will be
    /// seeded from, if one is pending.
    pub closed spec fn pending(&self) -> Option<(K, T)> {
        self.state.push_back
    }

    /// The key of the run most recently started by pulling upstream.
    pub closed spec fn last_key(&self) -> Option<K> {
        self.state.last_group
    }

    /// The key function.
    pub closed spec fn keyfn(&self) -> F {
        self.state.group
    }

    /// How many groups have been issued; the live group carries the
    /// same serial.
    pub closed spec fn serial(&self) -> int {
        self.state.serial as int
    }

    /// Every element not yet handed to any group, in order: the
    /// pushed-back element, then everything upstream.
    pub open spec fn pool(&self) -> Seq<T> {
        (match self.pending() {
            Some((k, e)) => seq![e],
            None => Seq::empty(),
        }) + self.upstream()
    }

    /// The key function answers for every element, and the serial
    /// counter keeps room for one group per pooled element.
    pub closed spec fn wf(&self) -> bool {
        key_fn_total::<T, K, F>(self.state.group) && self.state.serial + self.pool().len()
            <= usize::MAX
    }
}

/// A sub-iterator over one run of equal keys. It holds the run's key
/// and the seed element, and pulls further elements through its owner.
pub struct Group<K, T> {
    group_value: K,
    first_value: Option<T>,
    serial: usize,
    done: bool,
}

impl<K, T> Group<K, T> {
    /// The key of this group's run.
    pub closed spec fn key(&self) -> K {
        self.group_value
    }

    /// The seed element not yet yielded: one element or none.
    pub closed spec fn first_seq(&self) -> Seq<T> {
        match self.first_value {
            Some(e) => seq![e],
            None => Seq::empty(),
        }
    }

    /// Whether this group has reported exhaustion.
    pub closed spec fn done(&self) -> bool {
        self.done
    }

    /// The serial of the owner's `next` call that issued this group.
    pub closed spec fn serial(&self) -> int {
        self.serial as int
    }
}

impl<T, K: PartialEq + Clone, F: Fn(&T) -> K> GroupBy<T, K, F> {
    /// Yields the next `(key, group)` pair.
    ///
    /// A pending pushed-back element seeds the next group at no
    /// upstream cost, and nothing is skipped; this is the path taken
    /// when the previous group was drained to its end, so fully drained
    /// groups together partition the input. With nothing pending, the
    /// iterator pulls upstream, skipping the abandoned remainder of the
    /// previous run — elements whose key equals the last recorded key —
    /// and seeds a group with the first element whose key differs.
    /// Only the pulling path records a key: a group seeded from a
    /// pushed-back element leaves the recorded key as it was, which
    /// shapes what a later abandonment skips.
    pub fn next(&mut self) -> (r: Option<(K, Group<K, T>)>)
        requires
            old(self).wf(),
            clone_exact::<K>(),
        ensures
            final(self).wf(),
            final(self).keyfn() == old(self).keyfn(),
            r is None ==> final(self).serial() == old(self).serial() && final(self).pool().len()
                == 0 && final(self).pending() is None,
            r is None ==> forall|i: int|
                0 <= i < old(self).pool().len() ==> key_matches_last(
                    old(self).keyfn(),
                    #[trigger] old(self).pool()[i],
                    old(self).last_key(),
                ),
            old(self).pool().len() == 0 ==> r is None,
            old(self).pending() is Some || (old(self).last_key() is None
                && old(self).pool().len() > 0) ==> r is Some,
            r matches Some((k, g)) ==> {
                &&& final(self).serial() == old(self).serial() + 1
                &&& g.serial() == final(self).serial()
                &&& !g.done()
                &&& g.key() == k
                &&& final(self).pending() is None
                &&& (old(self).pending() matches Some((k0, e0)) ==> k == k0 && g.first_seq()
                    =~= seq![e0] && final(self).pool() == old(self).pool().drop_first()
                    && final(self).last_key() == old(self).last_key())
                &&& (old(self).pending() is None ==> final(self).last_key() == Some(k))
                &&& exists|m: int|
                    {
                        &&& 0 <= m < old(self).pool().len()
                        &&& g.first_seq() == seq![old(self).pool()[m]]
                        &&& final(self).pool() == old(self).pool().skip(m + 1)
                        &&& ((old(self).pending() is Some || old(self).last_key() is None)
                            ==> m == 0)
                        &&& (forall|i: int|
                            0 <= i < m ==> key_matches_last(
                                old(self).keyfn(),
                                #[trigger] old(self).pool()[i],
                                old(self).last_key(),
                            ))
                        &&& (old(self).pending() is None ==> exists|kk: K|
                            {
                                &&& #[trigger] call_ensures(
                                    old(self).keyfn(),
                                    (&old(self).pool()[m],),
                                    kk,
                                )
                                &&& kk == k
                                &&& (K::obeys_eq_spec() ==> (match old(self).last_key() {
                                    Some(lk2) => !kk.eq_spec(&lk2),
                                    None => true,
                                }))
                            })
                    }
            },
    {
        let ghost pre = *self;
        match self.state.push_back.take() {
            Some((g0, e0)) => {
                let k = g0.clone();
                proof {
                    assert(cloned::<K>(g0, k));
                    assert(k == g0);
                }
                self.state.serial += 1;
                let group = Group {
                    group_value: g0,
                    first_value: Some(e0),
                    serial: self.state.serial,
                    done: false,
                };
                proof {
                    assert(pre.pool()[0] == e0);
                    assert(group.first_seq() =~= seq![pre.pool()[0]]);
                    assert(self.pool() =~= pre.pool().skip(1));
                    assert(self.pool() =~= pre.pool().drop_first());
                }
                return Some((k, group));
            },
            None => {},
        }
        let ghost base = self.state.iter@;
        let (e, k) = match self.state.last_group.take() {
            None => {
                let e = match self.state.iter.next() {
                    Some(e) => e,
                    None => {
                        return None;
                    },
                };
                let k = (self.state.group)(&e);
                proof {
                    assert(call_ensures(pre.keyfn(), (&e,), k));
                }
                (e, k)
            },
            Some(last_g) => {
                let ghost mut m: int = 0;
                let mut found: Option<(T, K)> = None;
                while found.is_none()
                    invariant
                        pre == *old(self),
                        base == old(self).upstream(),
                        old(self).pending() is None,
                        0 <= m <= base.len(),
                        self.state.group == pre.keyfn(),
                        self.state.push_back is None,
                        self.state.serial == pre.state.serial,
                        key_fn_total::<T, K, F>(self.state.group),
                        clone_exact::<K>(),
                        pre.state.last_group == Some(last_g),
                        found is None ==> self.state.iter@ == base.skip(m),
                        found matches Some((fe, fk)) ==> {
                            &&& m < base.len()
                            &&& self.state.iter@ == base.skip(m + 1)
                            &&& fe == base[m]
                            &&& call_ensures(pre.keyfn(), (&base[m],), fk)
                            &&& (K::obeys_eq_spec() ==> !fk.eq_spec(&last_g))
                        },
                        forall|i: int|
                            0 <= i < m ==> key_matches_last(
                                pre.keyfn(),
                                #[trigger] base[i],
                                pre.state.last_group,
                            ),
                    decreases base.len() - m + (if found is None {
                        1int
                    } else {
                        0int
                    }),
                {
                    let e = match self.state.iter.next() {
                        Some(e) => e,
                        None => {
                            proof {
                                assert(self.pool() =~= Seq::<T>::empty());
                            }
                            return None;
                        },
                    };
                    let k = (self.state.group)(&e);
                    if k != last_g {
                        proof {
                            assert(base[m] == e);
                        }
                        found = Some((e, k));
                    } else {
                        proof {
                            assert(call_ensures(pre.keyfn(), (&base[m],), k));
                            assert(key_matches_last(pre.keyfn(), base[m], pre.state.last_group));
                            m = m + 1;
                        }
                    }
                }
                found.unwrap()
            },
        };
        let ghost m_used: int = base.len() - self.state.iter@.len() - 1;
        let k_last = k.clone();
        proof {
            assert(cloned::<K>(k, k_last));
            assert(k_last == k);
        }
        self.state.last_group = Some(k_last);
        self.state.serial += 1;
        let k_out = k.clone();
        proof {
            assert(cloned::<K>(k, k_out));
            assert(k_out == k);
        }
        let group = Group {
            group_value: k,
            first_value: Some(e),
            serial: self.state.serial,
            done: false,
        };
        proof {
            assert(pre.pool() == base);
            assert(group.first_seq() == seq![pre.pool()[m_used]]);
            assert(self.pool() =~= pre.pool().skip(m_used + 1));
        }
        Some((k_out, group))
    }

    /// Drains the whole grouping, each group pulled to its end, and
    /// returns the `(key, elements)` pairs in order.
    ///
    /// Run-partition completeness: when every group is drained to its
    /// end, nothing is skipped, so concatenating the groups' element
    /// lists reconstructs the pooled input exactly.
    pub fn collect_groups(&mut self) -> (r: Vec<(K, Vec<T>)>)
        requires
            old(self).wf(),
            clone_exact::<K>(),
            old(self).pending() is None,
            old(self).last_key() is None,
        ensures
            final(self).wf(),
            concat_group_elems(r@) == old(self).pool(),
            final(self).pool().len() == 0,
    {
        let mut out: Vec<(K, Vec<T>)> = Vec::new();
        proof {
            assert(concat_group_elems(out@) + self.pool() =~= self.pool());
        }
        loop
            invariant
                self.wf(),
                clone_exact::<K>(),
                concat_group_elems(out@) + self.pool() == old(self).pool(),
                self.last_key() is None || self.pending() is Some || self.pool().len() == 0,
            decreases self.pool().len(),
        {
            let ghost pool_top = self.pool();
            let ghost out_top = out@;
            match self.next() {
                None => {
                    proof {
                        assert(concat_group_elems(out@) =~= old(self).pool());
                    }
                    return out;
                },
                Some((k, mut g)) => {
                    let mut row: Vec<T> = Vec::new();
                    proof {
                        assert(pool_top =~= pool_top.take(1) + self.pool());
                        assert(concat_group_elems(out@) + row@ + g.first_seq() + self.pool()
                            =~= old(self).pool());
                    }
                    loop
                        invariant
                            self.wf(),
                            g.serial() == self.serial(),
                            g.done() || self.pending() is None,
                            g.done() ==> g.first_seq().len() == 0 && (self.pending() is Some
                                || self.pool().len() == 0),
                            concat_group_elems(out@) + row@ + g.first_seq() + self.pool() == old(
                                self,
                            ).pool(),
                            out@ == out_top,
                            self.pool().len() + 1 <= pool_top.len(),
                        ensures
                            self.wf(),
                            g.done(),
                            g.first_seq().len() == 0,
                            self.pending() is Some || self.pool().len() == 0,
                            concat_group_elems(out@) + row@ + g.first_seq() + self.pool() == old(
                                self,
                            ).pool(),
                            out@ == out_top,
                            self.pool().len() + 1 <= pool_top.len(),
                        decreases self.pool().len() + g.first_seq().len() + (if g.done() {
                            0int
                        } else {
                            1int
                        }),
                    {
                        match g.next(self) {
                            Some(e) => {
                                row.push(e);
                                proof {
                                    assert(concat_group_elems(out@) + row@ + g.first_seq()
                                        + self.pool() =~= old(self).pool());
                                }
                            },
                            None => {
                                break;
                            },
                        }
                    }
                    out.push((k, row));
                    proof {
                        assert(out@.drop_last() =~= out_top);
                        assert(concat_group_elems(out@) == concat_group_elems(out_top)
                            + out@.last().1@);
                        assert(concat_group_elems(out@) + self.pool() =~= old(self).pool());
                    }
                },
            }
        }
    }

    /// The size estimate the outer iterator reports: one pair is owed
    /// whenever `next` is bound to yield one — an element is pending, or
    /// no run has started and elements remain — and there can be no more
    /// pairs than pooled elements.
    pub fn size_hint(&self) -> (r: (usize, Option<usize>))
        requires
            self.wf(),
        ensures
            r.0 == if self.pending() is Some || (self.last_key() is None && self.pool().len() > 0) {
                1int
            } else {
                0int
            },
            r.1 == Some((self.pool().len() as usize)),
    {
        let pending = self.state.push_back.is_some();
        let lb: usize = if pending || (self.state.last_group.is_none() && self.state.iter.len() > 0) {
            1
        } else {
            0
        };
        let extra: usize = if pending {
            1
        } else {
            0
        };
        (lb, Some(self.state.iter.len() + extra))
    }
}

impl<K: PartialEq, T> Group<K, T> {
    /// Yields the next element of this group's run: the seed first,
    /// then upstream elements for as long as their key equals the
    /// group's. The first element of the next run is not consumed: it
    /// is pushed back to the owner, which will seed the next group with
    /// it.
    pub fn next<F: Fn(&T) -> K>(&mut self, owner: &mut GroupBy<T, K, F>) -> (r: Option<T>)
        requires
            old(owner).wf(),
            old(self).serial() == old(owner).serial(),
            old(self).done() || old(owner).pending() is None,
        ensures
            final(owner).wf(),
            final(owner).serial() == old(owner).serial(),
            final(owner).last_key() == old(owner).last_key(),
            final(owner).keyfn() == old(owner).keyfn(),
            final(self).serial() == old(self).serial(),
            final(self).key() == old(self).key(),
            old(self).done() ==> r is None && *final(self) == *old(self) && final(owner).pool()
                == old(owner).pool() && final(owner).pending() == old(owner).pending(),
            !old(self).done() && old(self).first_seq().len() > 0 ==> r == Some(
                old(self).first_seq()[0],
            ) && final(self).first_seq().len() == 0 && !final(self).done() && final(owner).pool()
                == old(owner).pool() && final(owner).pending() == old(owner).pending(),
            !old(self).done() && old(self).first_seq().len() == 0 && old(owner).upstream().len()
                == 0 ==> r is None && final(self).done() && final(self).first_seq().len() == 0
                && final(owner).pool() == old(owner).pool()
                && final(owner).pending() == old(owner).pending(),
            !old(self).done() && old(self).first_seq().len() == 0 && old(owner).upstream().len()
                > 0 ==> exists|kk: K|
                {
                    &&& #[trigger] call_ensures(
                        old(owner).keyfn(),
                        (&old(owner).upstream()[0],),
                        kk,
                    )
                    &&& ({
                        ||| {
                            &&& r == Some(old(owner).upstream()[0])
                            &&& !final(self).done()
                            &&& final(self).first_seq().len() == 0
                            &&& final(owner).upstream() == old(owner).upstream().drop_first()
                            &&& final(owner).pending() is None
                            &&& (K::obeys_eq_spec() ==> kk.eq_spec(&old(self).key()))
                        }
                        ||| {
                            &&& r is None
                            &&& final(self).done()
                            &&& final(self).first_seq().len() == 0
                            &&& final(owner).upstream() == old(owner).upstream().drop_first()
                            &&& final(owner).pending() == Some((kk, old(owner).upstream()[0]))
                            &&& final(owner).pool() == old(owner).pool()
                            &&& (K::obeys_eq_spec() ==> !kk.eq_spec(&old(self).key()))
                        }
                    })
                },
    {
        if self.done {
            return None;
        }
        match self.first_value.take() {
            Some(e) => {
                return Some(e);
            },
            None => {},
        }
        let e = match owner.state.iter.next() {
            Some(e) => e,
            None => {
                self.done = true;
                return None;
            },
        };
        let k = (owner.state.group)(&e);
        proof {
            assert(call_ensures(old(owner).keyfn(), (&e,), k));
        }
        if k == self.group_value {
            Some(e)
        } else {
            owner.state.push_back = Some((k, e));
            self.done = true;
            proof {
                assert(owner.pool() =~= old(owner).pool());
            }
            None
        }
    }

    /// The size estimate this group reports: its seed is ready, and no
    /// more elements can follow than upstream holds.
    pub fn size_hint<F: Fn(&T) -> K>(&self, owner: &GroupBy<T, K, F>) -> (r: (
        usize,
        Option<usize>,
    ))
        requires
            owner.wf(),
            self.serial() == owner.serial(),
            1 <= self.serial(),
        ensures
            r.0 == self.first_seq().len(),
            r.1 == Some((self.first_seq().len() + owner.upstream().len()) as usize),
    {
        let lb: usize = if self.first_value.is_some() {
            1
        } else {
            0
        };
        (lb, Some(owner.state.iter.len() + lb))
    }
}

} // verus!
