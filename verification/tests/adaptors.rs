use grabbag::accumulate::AccumulateIterator;
use grabbag::cartesian_product::CartesianProductIterator;
use grabbag::clone_each::CloneEachIterator;
use grabbag::cursor::Cursor;
use grabbag::fold::{FoldlIterator, FoldrIterator};
use grabbag::group_by::GroupByIterator;
use grabbag::indexed::IndexedIterator;
use grabbag::intersperse::IntersperseIterator;
use grabbag::keep_some::KeepSomeIterator;
use grabbag::pacing_walk::PacingWalkIterator;
use grabbag::pad_tail_to::PadTailToIterator;
use grabbag::round_robin::RoundRobinIterator;
use grabbag::sorted::SortedIterator;
use grabbag::stride::StrideIterator;
use grabbag::take_exactly::TakeExactlyIterator;
use grabbag::tee::TeeIterator;
use grabbag::zip_longest::ZipLongestIterator;

fn drain_cursor<T>(mut c: Cursor<T>) -> Vec<T> {
    let mut out = Vec::new();
    while let Some(e) = c.next() {
        out.push(e);
    }
    out
}

#[test]
fn test_accumulate() {
    let v = vec![0usize, 1, 2, 3, 4];
    let mut it = Cursor::new(v).accumulate(|a, b| a + b);
    let mut r: Vec<usize> = Vec::new();
    while let Some(e) = it.next() {
        r.push(e);
    }
    assert_eq!(r, vec![0, 1, 3, 6, 10]);
}

#[test]
fn test_accumulate_unwrap() {
    let v = vec![0usize, 1, 2, 3, 4];
    let mut i = Cursor::new(v).accumulate(|a, b| a + b);
    assert_eq!(i.next(), Some(0));
    assert_eq!(i.next(), Some(1));
    assert_eq!(i.next(), Some(3));
    let r = drain_cursor(i.unwrap());
    assert_eq!(r, vec![3, 4]);
}

#[test]
fn test_cartesian_product() {
    let a = vec![0usize, 1, 2];
    let b = vec![3usize, 4];
    let mut it = Cursor::new(a).cartesian_product(Cursor::new(b));
    let mut r: Vec<(usize, usize)> = Vec::new();
    while let Some(p) = it.next() {
        r.push(p);
    }
    assert_eq!(r, vec![(0, 3), (0, 4), (1, 3), (1, 4), (2, 3), (2, 4)]);
}

#[test]
fn test_clone_each() {
    let it: Vec<i32> = vec![1, 2, 3];
    let mut it = Cursor::new(it).clone_each();
    assert_eq!(it.next(), Some(1));
    assert_eq!(it.next(), Some(2));
    assert_eq!(it.next(), Some(3));
    assert_eq!(it.next(), None);
}

#[test]
fn test_foldl() {
    let vs = vec!["a".to_string(), "b".to_string(), "c".to_string()];
    let r = Cursor::new(vs).foldl(|a, b| format!("({}, {})", a, b));
    assert_eq!(Some("((a, b), c)".to_string()), r);
}

#[test]
fn test_foldl_map() {
    let v = vec!["a", "b", "c"];
    let r = Cursor::new(v).foldl_map(|e: &str| e.to_string(), |e, f| (e + ", ") + f);
    assert_eq!(r, Some("a, b, c".to_string()));
}

#[test]
fn test_foldr() {
    let vs = vec!["a".to_string(), "b".to_string(), "c".to_string()];
    let r = Cursor::new(vs).foldr(|a, b| format!("({}, {})", a, b));
    assert_eq!(Some("(a, (b, c))".to_string()), r);
}

#[test]
fn test_group_by() {
    {
        let v = vec![0usize, 1, 2, 3, 5, 4, 6, 8, 7];
        let mut oi = Cursor::new(v).group_by(|e: &usize| *e & 1);

        let (g, mut ii) = oi.next().unwrap();
        assert_eq!(g, 0);
        assert_eq!(ii.next(&mut oi), Some(0));
        assert_eq!(ii.next(&mut oi), None);

        let (g, mut ii) = oi.next().unwrap();
        assert_eq!(g, 1);
        assert_eq!(ii.next(&mut oi), Some(1));
        assert_eq!(ii.next(&mut oi), None);

        let (g, mut ii) = oi.next().unwrap();
        assert_eq!(g, 0);
        assert_eq!(ii.next(&mut oi), Some(2));
        assert_eq!(ii.next(&mut oi), None);

        let (g, mut ii) = oi.next().unwrap();
        assert_eq!(g, 1);
        assert_eq!(ii.next(&mut oi), Some(3));
        assert_eq!(ii.next(&mut oi), Some(5));
        assert_eq!(ii.next(&mut oi), None);

        let (g, mut ii) = oi.next().unwrap();
        assert_eq!(g, 0);
        assert_eq!(ii.next(&mut oi), Some(4));
        assert_eq!(ii.next(&mut oi), Some(6));
        assert_eq!(ii.next(&mut oi), Some(8));
        assert_eq!(ii.next(&mut oi), None);

        let (g, mut ii) = oi.next().unwrap();
        assert_eq!(g, 1);
        assert_eq!(ii.next(&mut oi), Some(7));
        assert_eq!(ii.next(&mut oi), None);

        assert!(oi.next().is_none());
    }
    {
        let v = vec![0usize, 1, 2, 3, 5, 4, 6, 8, 7];
        let mut oi = Cursor::new(v).group_by(|e: &usize| *e & 1);

        let (g, _) = oi.next().unwrap();
        assert_eq!(g, 0);

        let (g, _) = oi.next().unwrap();
        assert_eq!(g, 1);

        let (g, _) = oi.next().unwrap();
        assert_eq!(g, 0);

        let (g, _) = oi.next().unwrap();
        assert_eq!(g, 1);

        let (g, mut ii) = oi.next().unwrap();
        assert_eq!(g, 0);
        assert_eq!(ii.next(&mut oi), Some(4));
        assert_eq!(ii.next(&mut oi), Some(6));

        let (g, _) = oi.next().unwrap();
        assert_eq!(g, 1);

        assert!(oi.next().is_none());
    }
}

#[test]
fn test_indexed() {
    let v = vec![0usize, 1, 2, 3, 4];
    let i = vec![2usize, 4, 1, 0, 2, 3, 5];
    let mut it = Cursor::new(v).indexed(Cursor::new(i));
    let mut r: Vec<Option<usize>> = Vec::new();
    while let Some(e) = it.next() {
        r.push(e);
    }
    assert_eq!(r, vec![Some(2), Some(4), Some(1), Some(0), Some(2), Some(3), None]);
}

#[test]
fn test_indexed_view() {
    let v = vec![0usize, 1, 2, 3, 4];
    let v = Cursor::new(v);
    let i = vec![2usize, 4, 1, 0, 2, 3, 5];
    let mut it = v.indexed_view(Cursor::new(i));
    let mut r: Vec<Option<usize>> = Vec::new();
    while let Some(e) = it.next() {
        r.push(e);
    }
    assert_eq!(r, vec![Some(2), Some(4), Some(1), Some(0), Some(2), Some(3), None]);
    assert_eq!(drain_cursor(v), vec![0, 1, 2, 3, 4]);
}

#[test]
fn test_intersperse() {
    let v: Vec<&str> = vec![];
    let mut it = Cursor::new(v).intersperse(",");
    let mut r: Vec<&str> = Vec::new();
    while let Some(e) = it.next() {
        r.push(e);
    }
    assert_eq!(r, Vec::<&str>::new());

    let v = vec!["a"];
    let mut it = Cursor::new(v).intersperse(",");
    let mut r: Vec<&str> = Vec::new();
    while let Some(e) = it.next() {
        r.push(e);
    }
    assert_eq!(r, vec!["a"]);

    let v = vec!["a", "b"];
    let mut it = Cursor::new(v).intersperse(",");
    let mut r: Vec<&str> = Vec::new();
    while let Some(e) = it.next() {
        r.push(e);
    }
    assert_eq!(r, vec!["a", ",", "b"]);

    let v = vec!["a", "b", "c"];
    let mut it = Cursor::new(v).intersperse(",");
    let mut r: Vec<&str> = Vec::new();
    while let Some(e) = it.next() {
        r.push(e);
    }
    assert_eq!(r, vec!["a", ",", "b", ",", "c"]);
}

#[test]
fn test_keep_some() {
    let v = vec![None, Some(0usize), Some(1), None, Some(2), None, None, Some(3), None];
    let mut it = Cursor::new(v).keep_some();
    let mut r: Vec<usize> = Vec::new();
    while let Some(e) = it.next() {
        r.push(e);
    }
    assert_eq!(r, vec![0, 1, 2, 3]);
}

#[test]
fn test_pacing_walk() {
    let v: Vec<usize> = vec![0, 1, 2, 3, 4];

    let mut walks: Vec<Vec<usize>> = Vec::new();
    for s in 0..5usize {
        let mut it = Cursor::new(v.clone()).pacing_walk(s);
        let mut w: Vec<usize> = Vec::new();
        while let Some(e) = it.next() {
            w.push(e);
        }
        walks.push(w);
    }

    assert_eq!(walks[0], vec![0, 1, 2, 3, 4]);
    assert_eq!(walks[1], vec![1, 2, 0, 3, 4]);
    assert_eq!(walks[2], vec![2, 3, 1, 4, 0]);
    assert_eq!(walks[3], vec![3, 4, 2, 1, 0]);
    assert_eq!(walks[4], vec![4, 3, 2, 1, 0]);
}

#[test]
fn test_pad_tail_to() {
    let v: Vec<usize> = vec![0, 1, 2];
    let mut it = Cursor::new(v).pad_tail_to(5, |n| n);
    let mut r: Vec<usize> = Vec::new();
    while let Some(e) = it.next() {
        r.push(e);
    }
    assert_eq!(r, vec![0, 1, 2, 3, 4]);

    let v: Vec<usize> = vec![0, 1, 2];
    let mut it = Cursor::new(v).pad_tail_to(1, |_| -> usize { panic!() });
    let mut r: Vec<usize> = Vec::new();
    while let Some(e) = it.next() {
        r.push(e);
    }
    assert_eq!(r, vec![0, 1, 2]);
}

#[test]
fn test_round_robin() {
    let v0 = vec![0usize, 2, 4];
    let v1 = vec![1usize, 3, 5, 7];
    let mut it = Cursor::new(v0).round_robin(Cursor::new(v1));
    assert_eq!(it.next(), Some(0));
    assert_eq!(it.next(), Some(1));
    assert_eq!(it.next(), Some(2));
    assert_eq!(it.next(), Some(3));
    assert_eq!(it.next(), Some(4));
    assert_eq!(it.next(), Some(5));
    assert_eq!(it.next(), None);
}

#[test]
fn test_round_robin_longest() {
    let v0 = vec![0usize, 2, 4];
    let v1 = vec![1usize, 3, 5, 7];
    let mut it = Cursor::new(v0).round_robin_longest(Cursor::new(v1));
    assert_eq!(it.next(), Some(0));
    assert_eq!(it.next(), Some(1));
    assert_eq!(it.next(), Some(2));
    assert_eq!(it.next(), Some(3));
    assert_eq!(it.next(), Some(4));
    assert_eq!(it.next(), Some(5));
    assert_eq!(it.next(), Some(7));
    assert_eq!(it.next(), None);
}

#[test]
fn test_skip() {
    let v = vec![0isize, 1, 2, 3];
    let r = drain_cursor(Cursor::new(v).skip(3));
    assert_eq!(r, vec![3]);

    let v = vec![0isize, 1];
    let r = drain_cursor(Cursor::new(v).skip(3));
    assert_eq!(r, vec![]);
}

#[test]
fn test_sorted() {
    let v = vec![1usize, 3, 2, 0, 4];
    let s = Cursor::new(v).sorted();
    assert_eq!(s, vec![0usize, 1, 2, 3, 4]);
}

#[test]
fn test_sorted_by() {
    let v = vec![1usize, 3, 2, 0, 4];
    let s = Cursor::new(v).sorted_by(|a, b| (!*a).cmp(&!*b));
    assert_eq!(s, vec![4, 3, 2, 1, 0usize]);
}

#[test]
fn test_stride() {
    let v = vec![0isize, 1, 2, 3, 4, 5, 6, 7, 8, 9];
    let mut it = Cursor::new(v).stride(2);
    assert_eq!(it.size_hint(), (5, Some(5)));
    assert_eq!(it.next(), Some(0));
    assert_eq!(it.next(), Some(2));
    assert_eq!(it.next(), Some(4));
    assert_eq!(it.next(), Some(6));
    assert_eq!(it.next(), Some(8));
    assert_eq!(it.next(), None);

    let v = vec![0isize, 1, 2, 3, 4, 5];
    let it = Cursor::new(v).stride(3);
    assert_eq!(it.size_hint(), (2, Some(2)));

    let v = vec![0isize, 1, 2, 3, 4, 5, 6];
    let it = Cursor::new(v).stride(3);
    assert_eq!(it.size_hint(), (3, Some(3)));

    let v = vec![0isize, 1, 2, 3, 4, 5, 6, 7];
    let it = Cursor::new(v).stride(3);
    assert_eq!(it.size_hint(), (3, Some(3)));

    let v = vec![0isize, 1, 2, 3, 4, 5, 6, 7, 8];
    let it = Cursor::new(v).stride(3);
    assert_eq!(it.size_hint(), (3, Some(3)));

    let v = vec![0isize, 1, 2, 3, 4, 5, 6, 7, 8, 9];
    let it = Cursor::new(v).stride(3);
    assert_eq!(it.size_hint(), (4, Some(4)));
}

#[test]
fn test_take() {
    let v = vec![0isize, 1, 2, 3];
    let r = drain_cursor(Cursor::new(v).take(3));
    assert_eq!(r, vec![0, 1, 2]);

    let v = vec![0isize, 1];
    let r = drain_cursor(Cursor::new(v).take(3));
    assert_eq!(r, vec![0, 1]);
}

#[test]
fn test_tee() {
    let v = vec![0usize, 1, 2, 3];
    let (mut a, mut b, mut st) = Cursor::new(v).tee();
    assert_eq!(a.drain(&mut st), vec![0, 1, 2, 3]);
    assert_eq!(b.drain(&mut st), vec![0, 1, 2, 3]);

    let v = vec![0usize, 1, 2, 3];
    let (mut a, mut b, mut st) = Cursor::new(v).tee();
    assert_eq!(b.drain(&mut st), vec![0, 1, 2, 3]);
    assert_eq!(a.drain(&mut st), vec![0, 1, 2, 3]);

    let v = vec![0usize, 1, 2, 3];
    let (mut a, mut b, mut st) = Cursor::new(v).tee();
    assert_eq!(a.next(&mut st), Some(0));
    assert_eq!(a.next(&mut st), Some(1));
    assert_eq!(b.next(&mut st), Some(0));
    assert_eq!(b.next(&mut st), Some(1));
    assert_eq!(b.next(&mut st), Some(2));
    assert_eq!(a.next(&mut st), Some(2));
    assert_eq!(b.next(&mut st), Some(3));
    assert_eq!(a.next(&mut st), Some(3));
    assert_eq!(a.next(&mut st), None);
    assert_eq!(b.next(&mut st), None);
}

#[test]
fn test_zip_longest() {
    let a = vec![0usize, 1, 2, 3];
    let b = vec!["a", "b", "c"];
    let mut it = Cursor::new(a).zip_longest(Cursor::new(b));
    let mut r: Vec<(Option<usize>, Option<&str>)> = Vec::new();
    while let Some(p) = it.next() {
        r.push(p);
    }
    assert_eq!(
        r,
        vec![(Some(0), Some("a")), (Some(1), Some("b")), (Some(2), Some("c")), (Some(3), None),]
    );

    let a = vec![0usize, 1, 2];
    let b = vec!["a", "b", "c"];
    let mut it = Cursor::new(a).zip_longest(Cursor::new(b));
    let mut r: Vec<(Option<usize>, Option<&str>)> = Vec::new();
    while let Some(p) = it.next() {
        r.push(p);
    }
    assert_eq!(r, vec![(Some(0), Some("a")), (Some(1), Some("b")), (Some(2), Some("c")),]);

    let a = vec![0usize, 1, 2];
    let b = vec!["a", "b", "c", "d"];
    let mut it = Cursor::new(a).zip_longest(Cursor::new(b));
    let mut r: Vec<(Option<usize>, Option<&str>)> = Vec::new();
    while let Some(p) = it.next() {
        r.push(p);
    }
    assert_eq!(
        r,
        vec![(Some(0), Some("a")), (Some(1), Some("b")), (Some(2), Some("c")), (None, Some("d")),]
    );
}
