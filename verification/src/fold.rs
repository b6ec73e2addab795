//! Folding a sequence into a single value, from the left or from the
//! right.

use vstd::prelude::*;

verus! {

use crate::cursor::Cursor;

/// Whether `r` is a possible result of folding `s` from the left onto
/// `init`: there is a chain of intermediate results, each a possible
/// answer of `f`, leading from `init` through every element to `r`.
pub open spec fn folds_left<A, T, F: Fn(A, T) -> A>(f: F, init: A, s: Seq<T>, r: A) -> bool
    decreases s.len(),
{
    if s.len() == 0 {
        r == init
    } else {
        exists|mid: A|
            #[trigger] call_ensures(f, (init, s[0]), mid) && folds_left(f, mid, s.drop_first(), r)
    }
}

/// Whether `r` is a possible result of folding `s` from the right onto
/// `init`.
pub open spec fn folds_right<T, F: Fn(T, T) -> T>(f: F, s: Seq<T>, init: T, r: T) -> bool
    decreases s.len(),
{
    if s.len() == 0 {
        r == init
    } else {
        exists|mid: T|
            folds_right(f, s.drop_first(), init, mid) && #[trigger] call_ensures(
                f,
                (s[0], mid),
                r,
            )
    }
}

/// Whether `f` can be asked to combine any pair of values.
pub open spec fn fold_fn_total<A, T, F: Fn(A, T) -> A>(f: F) -> bool {
    forall|a: A, b: T| #[trigger] f.requires((a, b))
}

pub trait FoldlIterator<T>: Sized {
    /// Folds the elements of the iterator together, from left to right,
    /// using `f`. Returns `None` if the iterator is empty.
    fn foldl<F: Fn(T, T) -> T>(self, f: F) -> Option<T>
        requires
            fold_fn_total::<T, T, F>(f),
    ;

    /// Folds the elements of the iterator together, from left to right,
    /// using `f`, the first element transformed by `map` before folding
    /// begins. Returns `None` if the iterator is empty.
    fn foldl_map<A, F: Fn(A, T) -> A, M: FnOnce(T) -> A>(self, map: M, f: F) -> Option<A>
        requires
            fold_fn_total::<A, T, F>(f),
            forall|t: T| #[trigger] map.requires((t,)),
    ;
}

pub trait FoldrIterator<T>: Sized {
    /// Folds the elements of the iterator together, from right to left,
    /// using `f`. Returns `None` if the iterator is empty.
    fn foldr<F: Fn(T, T) -> T>(self, f: F) -> Option<T>
        requires
            fold_fn_total::<T, T, F>(f),
    ;
}

impl<T> FoldlIterator<T> for Cursor<T> {
    fn foldl<F: Fn(T, T) -> T>(self, f: F) -> (r: Option<T>)
        ensures
            self@.len() == 0 <==> r is None,
            r matches Some(v) ==> folds_left(f, self@[0], self@.drop_first(), v),
    {
        let mut c = self;
        let first = match c.next() {
            None => {
                return None;
            },
            Some(e) => e,
        };
        Some(fold_rest(c, first, f))
    }

    fn foldl_map<A, F: Fn(A, T) -> A, M: FnOnce(T) -> A>(self, map: M, f: F) -> (r: Option<A>)
        ensures
            self@.len() == 0 <==> r is None,
            r matches Some(v) ==> exists|first: A|
                #[trigger] call_ensures(map, (self@[0],), first) && folds_left(
                    f,
                    first,
                    self@.drop_first(),
                    v,
                ),
    {
        let mut c = self;
        let first = match c.next() {
            None => {
                return None;
            },
            Some(e) => map(e),
        };
        Some(fold_rest(c, first, f))
    }
}

/// Folds the whole cursor from the left onto `init`.
fn fold_rest<A, T, F: Fn(A, T) -> A>(source: Cursor<T>, init: A, f: F) -> (r: A)
    requires
        fold_fn_total::<A, T, F>(f),
    ensures
        folds_left(f, init, source@, r),
{
    let ghost whole = source@;
    let mut c = source;
    let mut acc = init;
    loop
        invariant
            whole == source@,
            fold_fn_total::<A, T, F>(f),
            forall|r: A| folds_left(f, acc, c@, r) ==> folds_left(f, init, whole, r),
        decreases c@.len(),
    {
        let ghost pre_c = c@;
        match c.next() {
            None => {
                proof {
                    assert(c@.len() == 0);
                    assert(folds_left(f, acc, c@, acc));
                }
                return acc;
            },
            Some(e) => {
                let ghost prev = acc;
                acc = f(acc, e);
                proof {
                    assert(pre_c.drop_first() =~= c@);
                    assert forall|r: A| folds_left(f, acc, c@, r) implies folds_left(
                        f,
                        init,
                        whole,
                        r,
                    ) by {
                        assert(call_ensures(f, (prev, pre_c[0]), acc));
                        assert(folds_left(f, prev, pre_c, r));
                    }
                }
            },
        }
    }
}

/// One step of a right fold: a result for the tail combined once more
/// through `f` is a result for the whole.
proof fn lemma_folds_right_step<T, F: Fn(T, T) -> T>(f: F, s: Seq<T>, init: T, mid: T, r: T)
    requires
        s.len() > 0,
        folds_right(f, s.drop_first(), init, mid),
        call_ensures(f, (s[0], mid), r),
    ensures
        folds_right(f, s, init, r),
{
    assert(exists|m2: T|
        folds_right(f, s.drop_first(), init, m2) && #[trigger] call_ensures(f, (s[0], m2), r));
}

impl<T> FoldrIterator<T> for Cursor<T> {
    fn foldr<F: Fn(T, T) -> T>(self, f: F) -> (r: Option<T>)
        ensures
            self@.len() == 0 <==> r is None,
            r matches Some(v) ==> folds_right(f, self@.drop_last(), self@.last(), v),
    {
        let ghost whole = self@;
        let mut c = self;
        let mut last = match c.next_back() {
            None => {
                return None;
            },
            Some(e) => e,
        };
        proof {
            assert(c@ =~= whole.drop_last());
            assert(whole.drop_last().take(c@.len() as int) =~= c@);
            assert(whole.drop_last().skip(c@.len() as int) =~= Seq::<T>::empty());
        }
        loop
            invariant
                fold_fn_total::<T, T, F>(f),
                whole == self@,
                whole.len() > 0,
                c@.len() <= whole.drop_last().len(),
                c@ == whole.drop_last().take(c@.len() as int),
                folds_right(f, whole.drop_last().skip(c@.len() as int), whole.last(), last),
            decreases c@.len(),
        {
            let ghost rest = c@;
            match c.next_back() {
                None => {
                    proof {
                        assert(whole.drop_last().skip(0) =~= whole.drop_last());
                    }
                    return Some(last);
                },
                Some(e) => {
                    let ghost mid = last;
                    last = f(e, last);
                    proof {
                        let pre = whole.drop_last();
                        let n = c@.len() as int;
                        assert(rest == pre.take(n + 1));
                        assert(c@ =~= pre.take(n));
                        assert(e == pre[n]);
                        assert(pre.skip(n).drop_first() =~= pre.skip(n + 1));
                        assert(pre.skip(n)[0] == pre[n]);
                        assert(folds_right(f, pre.skip(n).drop_first(), whole.last(), mid));
                        lemma_folds_right_step(f, pre.skip(n), whole.last(), mid, last);
                    }
                },
            }
        }
    }
}

} // verus!
