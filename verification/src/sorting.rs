//! Stable sorting of keyed items: the order of `slice::sort_by_key`.

use vstd::prelude::*;

verus! {

/// The items of `s` whose key is `k`, in order.
pub open spec fn with_key<T>(s: Seq<(i64, T)>, k: i64) -> Seq<(i64, T)>
    decreases s.len(),
{
    if s.len() == 0 {
        Seq::empty()
    } else {
        let r = with_key(s.drop_last(), k);
        if s.last().0 == k {
            r.push(s.last())
        } else {
            r
        }
    }
}

/// `r` is `s` stably sorted by key, ascending: the keys of `r` never decrease, and for
/// every key the items with that key stand in `r` in the order they stand in `s`.
pub open spec fn stably_sorted<T>(r: Seq<(i64, T)>, s: Seq<(i64, T)>) -> bool {
    &&& forall|i: int, j: int| 0 <= i < j < r.len() ==> (#[trigger] r[i]).0 <= (#[trigger] r[j]).0
    &&& forall|k: i64| #[trigger] with_key(r, k) == with_key(s, k)
}

pub proof fn lemma_with_key_add<T>(a: Seq<(i64, T)>, b: Seq<(i64, T)>, k: i64)
    ensures
        with_key(a + b, k) == with_key(a, k) + with_key(b, k),
    decreases b.len(),
{
    if b.len() == 0 {
        assert(a + b =~= a);
        assert(with_key(a, k) + with_key(b, k) =~= with_key(a, k));
    } else {
        lemma_with_key_add(a, b.drop_last(), k);
        assert((a + b).drop_last() =~= a + b.drop_last());
        assert((a + b).last() == b.last());
        if b.last().0 == k {
            assert(with_key(a + b, k) =~= with_key(a, k) + with_key(b, k));
        } else {
            assert(with_key(a + b, k) =~= with_key(a, k) + with_key(b, k));
        }
    }
}

proof fn lemma_with_key_none<T>(s: Seq<(i64, T)>, k: i64)
    requires
        forall|i: int| 0 <= i < s.len() ==> (#[trigger] s[i]).0 != k,
    ensures
        with_key(s, k) == Seq::<(i64, T)>::empty(),
    decreases s.len(),
{
    if s.len() > 0 {
        lemma_with_key_none(s.drop_last(), k);
        assert(s.last() == s[s.len() - 1]);
    }
}

proof fn lemma_with_key_single<T>(x: (i64, T), k: i64)
    ensures
        with_key(seq![x], k) == if x.0 == k {
            seq![x]
        } else {
            Seq::<(i64, T)>::empty()
        },
{
    assert(seq![x].drop_last() =~= Seq::<(i64, T)>::empty());
    assert(with_key(Seq::<(i64, T)>::empty(), k) =~= Seq::<(i64, T)>::empty());
    assert(seq![x].last() == x);
}

proof fn lemma_with_key_contains<T>(s: Seq<(i64, T)>, x: (i64, T))
    ensures
        s.contains(x) <==> with_key(s, x.0).contains(x),
    decreases s.len(),
{
    if s.len() > 0 {
        lemma_with_key_contains(s.drop_last(), x);
        let r = with_key(s.drop_last(), x.0);
        if s.last() == x {
            assert(s[s.len() - 1] == x);
            assert(with_key(s, x.0)[r.len() as int] == x);
        } else {
            if s.contains(x) {
                let i = choose|i: int| 0 <= i < s.len() && s[i] == x;
                assert(s.drop_last()[i] == x);
            }
            if s.drop_last().contains(x) {
                let i = choose|i: int| 0 <= i < s.drop_last().len() && s.drop_last()[i] == x;
                assert(s[i] == x);
            }
            if s.last().0 == x.0 {
                if with_key(s, x.0).contains(x) {
                    let i = choose|i: int| 0 <= i < with_key(s, x.0).len() && with_key(s, x.0)[i] == x;
                    assert(r[i] == x);
                }
                if r.contains(x) {
                    let i = choose|i: int| 0 <= i < r.len() && r[i] == x;
                    assert(with_key(s, x.0)[i] == x);
                }
            }
        }
    }
}

/// Every item of a stable sort of `s` is an item of `s`.
pub proof fn lemma_sorted_items_from<T>(r: Seq<(i64, T)>, s: Seq<(i64, T)>)
    requires
        stably_sorted(r, s),
    ensures
        forall|i: int| 0 <= i < r.len() ==> s.contains(#[trigger] r[i]),
{
    assert forall|i: int| 0 <= i < r.len() implies s.contains(#[trigger] r[i]) by {
        let x = r[i];
        lemma_with_key_contains(r, x);
        lemma_with_key_contains(s, x);
        assert(with_key(r, x.0) == with_key(s, x.0));
    }
}

/// `v` stably sorted by key, ascending (the order `sort_by_key` gives).
pub fn stable_sort_by_key<T>(v: Vec<(i64, T)>) -> (r: Vec<(i64, T)>)
    ensures
        stably_sorted(r@, v@),
{
    let ghost src = v@;
    let mut out: Vec<(i64, T)> = Vec::new();
    let mut rest = v;
    let ghost n = src.len();
    while rest.len() > 0
        invariant
            n == src.len(),
            rest@.len() <= n,
            rest@ == src.subrange(n - rest@.len(), n as int),
            forall|i: int, j: int|
                0 <= i < j < out@.len() ==> (#[trigger] out@[i]).0 <= (#[trigger] out@[j]).0,
            forall|k: i64|
                #[trigger] with_key(out@, k) == with_key(src.subrange(0, n - rest@.len()), k),
        decreases rest.len(),
    {
        let ghost done = n - rest@.len();
        let x = rest.remove(0);
        proof {
            assert(src[done] == x);
            assert(src.subrange(0, done + 1) =~= src.subrange(0, done).push(x));
            assert(rest@ =~= src.subrange(n - rest@.len(), n as int));
        }
        let mut pos: usize = 0;
        while pos < out.len() && out[pos].0 <= x.0
            invariant
                0 <= pos <= out.len(),
                forall|q: int| 0 <= q < pos ==> (#[trigger] out@[q]).0 <= x.0,
            decreases out.len() - pos,
        {
            pos = pos + 1;
        }
        let ghost before = out@;
        let ghost xv = x;
        out.insert(pos, x);
        proof {
            let after = out@;
            assert(after =~= before.subrange(0, pos as int) + seq![xv] + before.subrange(
                pos as int,
                before.len() as int,
            ));
            assert(before =~= before.subrange(0, pos as int) + before.subrange(
                pos as int,
                before.len() as int,
            ));
            assert forall|i: int, j: int| 0 <= i < j < after.len() implies (
            #[trigger] after[i]).0 <= (#[trigger] after[j]).0 by {
                if j < pos {
                    assert(after[i] == before[i] && after[j] == before[j]);
                } else if j == pos {
                    assert(after[i] == before[i]);
                } else if i == pos {
                    assert(after[j] == before[j - 1]);
                    assert(before[pos as int].0 > xv.0);
                    if j - 1 > pos {
                        assert(before[pos as int].0 <= before[j - 1].0);
                    }
                } else if i < pos {
                    assert(after[i] == before[i] && after[j] == before[j - 1]);
                } else {
                    assert(after[i] == before[i - 1] && after[j] == before[j - 1]);
                }
            }
            let tail = before.subrange(pos as int, before.len() as int);
            let head = before.subrange(0, pos as int);
            assert forall|k: i64| #[trigger] with_key(after, k) == with_key(
                src.subrange(0, n - rest@.len()),
                k,
            ) by {
                lemma_with_key_add(head + seq![xv], tail, k);
                lemma_with_key_add(head, seq![xv], k);
                lemma_with_key_add(head, tail, k);
                lemma_with_key_single(xv, k);
                lemma_with_key_add(src.subrange(0, done), seq![xv], k);
                assert(src.subrange(0, n - rest@.len()) =~= src.subrange(0, done) + seq![xv]);
                if k == xv.0 {
                    assert forall|i: int| 0 <= i < tail.len() implies (#[trigger] tail[i]).0 != k by {
                        assert(pos + i < before.len());
                        assert(tail[i] == before[pos + i]);
                        if i > 0 {
                            assert(before[pos as int].0 <= before[pos + i].0);
                        }
                    }
                    lemma_with_key_none(tail, k);
                    assert(with_key(after, k) =~= with_key(head, k) + seq![xv]);
                    assert(with_key(before, k) =~= with_key(head, k) + with_key(tail, k));
                } else {
                    assert(with_key(after, k) =~= with_key(head, k) + with_key(tail, k));
                }
            }
        }
    }
    assert(src.subrange(0, n as int) =~= src);
    out
}

} // verus!
