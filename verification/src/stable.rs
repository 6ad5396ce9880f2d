use vstd::prelude::*;
use crate::sorting::{KeyView, SortKey, key_order, goes_after};
use crate::types::SortDir;
use crate::text::{lemma_lex_order_antisymmetric, lemma_lex_order_transitive, lemma_lex_order_zero};

verus! {

/// `s` with `x` put before the first row that goes after it, and so after
/// every row whose key ties with its own.
pub open spec fn insert_stable<T>(s: Seq<(T, KeyView)>, x: (T, KeyView), dir: SortDir) -> Seq<
    (T, KeyView),
>
    decreases s.len(),
{
    if s.len() == 0 {
        seq![x]
    } else if key_order(s[0].1, x.1, dir) > 0 {
        seq![x] + s
    } else {
        seq![s[0]] + insert_stable(s.drop_first(), x, dir)
    }
}

/// The rows of `s` in the order of their keys, rows whose keys tie keeping
/// their order in `s`: the order a stable sort such as `slice::sort_by` gives.
pub open spec fn stable_sort<T>(s: Seq<(T, KeyView)>, dir: SortDir) -> Seq<(T, KeyView)>
    decreases s.len(),
{
    if s.len() == 0 {
        s
    } else {
        insert_stable(stable_sort(s.drop_last(), dir), s.last(), dir)
    }
}

proof fn lemma_insert_at<T>(s: Seq<(T, KeyView)>, x: (T, KeyView), dir: SortDir, j: int)
    requires
        0 <= j <= s.len(),
        forall|k: int| 0 <= k < j ==> key_order(#[trigger] s[k].1, x.1, dir) <= 0,
        j == s.len() || key_order(s[j].1, x.1, dir) > 0,
    ensures
        insert_stable(s, x, dir) == s.take(j).push(x) + s.skip(j),
    decreases j,
{
    if j == 0 {
        if s.len() == 0 {
            assert(s.take(0).push(x) + s.skip(0) =~= seq![x]);
        } else {
            assert(s.take(0).push(x) + s.skip(0) =~= seq![x] + s);
        }
    } else {
        let t = s.drop_first();
        assert forall|k: int| 0 <= k < j - 1 implies key_order(#[trigger] t[k].1, x.1, dir) <= 0 by {
            assert(t[k] == s[k + 1]);
        }
        if j < s.len() {
            assert(t[j - 1] == s[j]);
        }
        lemma_insert_at(t, x, dir, j - 1);
        assert(key_order(s[0].1, x.1, dir) <= 0);
        assert(seq![s[0]] + (t.take(j - 1).push(x) + t.skip(j - 1)) =~= s.take(j).push(x) + s.skip(
            j,
        ));
    }
}

/// Rows with their keys as key views.
pub open spec fn rows_view<T>(s: Seq<(T, SortKey)>) -> Seq<(T, KeyView)> {
    s.map_values(|p: (T, SortKey)| (p.0, p.1@))
}

/// Sorts rows by their keys, stably (see `stable_sort`).
pub fn sort_rows<T>(items: Vec<(T, SortKey)>, dir: SortDir) -> (res: Vec<(T, SortKey)>)
    ensures
        rows_view(res@) == stable_sort(rows_view(items@), dir),
{
    let ghost orig = rows_view(items@);
    let ghost v = items@;
    let mut res: Vec<(T, SortKey)> = Vec::new();
    for x in it: items.into_iter()
        invariant
            orig == rows_view(v),
            it.seq() == v,
            rows_view(res@) == stable_sort(orig.take(it.index() as int), dir),
    {
        let ghost i = it.index();
        assert(x == v[i as int]);
        let mut j: usize = 0;
        while j < res.len() && !goes_after(&res[j].1, &x.1, dir)
            invariant
                j <= res.len(),
                forall|k: int| 0 <= k < j ==> key_order(#[trigger] res@[k].1@, x.1@, dir) <= 0,
            decreases res.len() - j,
        {
            j = j + 1;
        }
        proof {
            let rv = rows_view(res@);
            assert forall|k: int| 0 <= k < j implies key_order(#[trigger] rv[k].1, x.1@, dir) <= 0 by {
                assert(rv[k].1 == res@[k].1@);
            }
            if j < res.len() {
                assert(rv[j as int].1 == res@[j as int].1@);
            }
            lemma_insert_at(rv, (x.0, x.1@), dir, j as int);
            assert(orig.take(i + 1).drop_last() == orig.take(i as int));
            assert(orig.take(i + 1).last() == (x.0, x.1@));
        }
        res.insert(j, x);
        assert(rows_view(res@) =~= stable_sort(orig.take(i + 1), dir));
    }
    assert(orig.take(orig.len() as int) == orig);
    res
}

/// `s` with `f` applied to each row, keys unchanged.
pub open spec fn map_rows<T, U>(s: Seq<(T, KeyView)>, f: spec_fn(T) -> U) -> Seq<(U, KeyView)> {
    s.map_values(|p: (T, KeyView)| (f(p.0), p.1))
}

proof fn lemma_insert_map<T, U>(s: Seq<(T, KeyView)>, x: (T, KeyView), dir: SortDir, f: spec_fn(T) -> U)
    ensures
        insert_stable(map_rows(s, f), (f(x.0), x.1), dir) == map_rows(insert_stable(s, x, dir), f),
    decreases s.len(),
{
    let ms = map_rows(s, f);
    if s.len() == 0 {
        assert(map_rows(seq![x], f) =~= seq![(f(x.0), x.1)]);
    } else {
        assert(ms[0] == (f(s[0].0), s[0].1));
        if key_order(s[0].1, x.1, dir) > 0 {
            assert(map_rows(seq![x] + s, f) =~= seq![(f(x.0), x.1)] + ms);
        } else {
            lemma_insert_map(s.drop_first(), x, dir, f);
            assert(ms.drop_first() =~= map_rows(s.drop_first(), f));
            assert(map_rows(seq![s[0]] + insert_stable(s.drop_first(), x, dir), f) =~= seq![ms[0]]
                + map_rows(insert_stable(s.drop_first(), x, dir), f));
        }
    }
}

/// Sorting looks at the keys only: changing the rows (not their keys) and
/// then sorting gives the changed sorted rows.
pub proof fn law_sort_ignores_rows<T, U>(s: Seq<(T, KeyView)>, dir: SortDir, f: spec_fn(T) -> U)
    ensures
        stable_sort(map_rows(s, f), dir) == map_rows(stable_sort(s, dir), f),
    decreases s.len(),
{
    if s.len() > 0 {
        law_sort_ignores_rows(s.drop_last(), dir, f);
        assert(map_rows(s, f).drop_last() =~= map_rows(s.drop_last(), f));
        assert(map_rows(s, f).last() == (f(s.last().0), s.last().1));
        lemma_insert_map(stable_sort(s.drop_last(), dir), s.last(), dir, f);
    }
}

/// Whether each row's key is at most the next row's in the given direction.
pub open spec fn keys_ordered<T>(r: Seq<(T, KeyView)>, dir: SortDir) -> bool {
    forall|i: int| 0 <= i < r.len() - 1 ==> key_order(#[trigger] r[i].1, r[i + 1].1, dir) <= 0
}

proof fn lemma_key_order_antisymmetric(a: KeyView, b: KeyView, dir: SortDir)
    ensures
        key_order(a, b, dir) == -key_order(b, a, dir),
{
    match (a, b) {
        (KeyView::Text(x), KeyView::Text(y)) => {
            lemma_lex_order_antisymmetric(x, y);
        },
        _ => {},
    }
}

proof fn lemma_insert_is_insert<T>(s: Seq<(T, KeyView)>, x: (T, KeyView), dir: SortDir) -> (j: int)
    ensures
        0 <= j <= s.len(),
        insert_stable(s, x, dir) == s.insert(j, x),
    decreases s.len(),
{
    if s.len() == 0 {
        assert(s.insert(0, x) =~= seq![x]);
        0
    } else if key_order(s[0].1, x.1, dir) > 0 {
        assert(s.insert(0, x) =~= seq![x] + s);
        0
    } else {
        let t = s.drop_first();
        let k = lemma_insert_is_insert(t, x, dir);
        assert(seq![s[0]] + t.insert(k, x) =~= s.insert(k + 1, x));
        k + 1
    }
}

/// Sorting only reorders: the sorted rows are the given rows, each as often.
pub proof fn law_sort_keeps_rows<T>(s: Seq<(T, KeyView)>, dir: SortDir)
    ensures
        stable_sort(s, dir).to_multiset() == s.to_multiset(),
    decreases s.len(),
{
    broadcast use vstd::seq_lib::to_multiset_insert, vstd::seq_lib::to_multiset_build;

    if s.len() > 0 {
        law_sort_keeps_rows(s.drop_last(), dir);
        let j = lemma_insert_is_insert(stable_sort(s.drop_last(), dir), s.last(), dir);
        assert(s.drop_last().push(s.last()) == s);
    }
}

proof fn lemma_insert_ordered<T>(s: Seq<(T, KeyView)>, x: (T, KeyView), dir: SortDir)
    requires
        keys_ordered(s, dir),
    ensures
        keys_ordered(insert_stable(s, x, dir), dir),
        insert_stable(s, x, dir)[0] == x || (s.len() > 0 && insert_stable(s, x, dir)[0] == s[0]),
        insert_stable(s, x, dir).len() == s.len() + 1,
    decreases s.len(),
{
    let r = insert_stable(s, x, dir);
    if s.len() == 0 {
    } else if key_order(s[0].1, x.1, dir) > 0 {
        lemma_key_order_antisymmetric(s[0].1, x.1, dir);
        assert forall|i: int| 0 <= i < r.len() - 1 implies key_order(
            #[trigger] r[i].1,
            r[i + 1].1,
            dir,
        ) <= 0 by {
            if i > 0 {
                assert(r[i] == s[i - 1] && r[i + 1] == s[i]);
            }
        }
    } else {
        let t = s.drop_first();
        assert forall|i: int| 0 <= i < t.len() - 1 implies key_order(
            #[trigger] t[i].1,
            t[i + 1].1,
            dir,
        ) <= 0 by {
            assert(t[i] == s[i + 1] && t[i + 1] == s[i + 2]);
        }
        lemma_insert_ordered(t, x, dir);
        let rt = insert_stable(t, x, dir);
        assert forall|i: int| 0 <= i < r.len() - 1 implies key_order(
            #[trigger] r[i].1,
            r[i + 1].1,
            dir,
        ) <= 0 by {
            if i == 0 {
                assert(r[0] == s[0] && r[1] == rt[0]);
                if rt[0] != x {
                    assert(rt[0] == s[1]);
                }
            } else {
                assert(r[i] == rt[i - 1] && r[i + 1] == rt[i]);
            }
        }
    }
}

/// Sorting puts the rows in order: each row's key is at most the next one's.
pub proof fn law_sort_orders_rows<T>(s: Seq<(T, KeyView)>, dir: SortDir)
    ensures
        keys_ordered(stable_sort(s, dir), dir),
    decreases s.len(),
{
    if s.len() > 0 {
        law_sort_orders_rows(s.drop_last(), dir);
        lemma_insert_ordered(stable_sort(s.drop_last(), dir), s.last(), dir);
    }
}


proof fn lemma_key_order_zero(a: KeyView, b: KeyView, dir: SortDir)
    ensures
        key_order(a, b, dir) == 0 <==> a == b,
{
    match (a, b) {
        (KeyView::Text(x), KeyView::Text(y)) => {
            lemma_lex_order_zero(x, y);
            lemma_lex_order_zero(y, x);
        },
        _ => {},
    }
}

proof fn lemma_key_order_transitive(a: KeyView, b: KeyView, c: KeyView, dir: SortDir)
    requires
        key_order(a, b, dir) <= 0,
        key_order(b, c, dir) <= 0,
    ensures
        key_order(a, c, dir) <= 0,
{
    match (a, b, c) {
        (KeyView::Text(x), KeyView::Text(y), KeyView::Text(z)) => {
            match dir {
                SortDir::Asc => lemma_lex_order_transitive(x, y, z),
                SortDir::Desc => lemma_lex_order_transitive(z, y, x),
            }
        },
        _ => {},
    }
}

proof fn lemma_ordered_from<T>(t: Seq<(T, KeyView)>, dir: SortDir, i: int, j: int)
    requires
        keys_ordered(t, dir),
        0 <= i <= j < t.len(),
    ensures
        key_order(t[i].1, t[j].1, dir) <= 0,
    decreases j - i,
{
    if i == j {
        lemma_key_order_zero(t[i].1, t[j].1, dir);
    } else {
        lemma_ordered_from(t, dir, i, j - 1);
        assert(key_order(t[j - 1].1, t[j].1, dir) <= 0);
        lemma_key_order_transitive(t[i].1, t[j - 1].1, t[j].1, dir);
    }
}

/// Whether a row's key is `k`.
pub open spec fn has_key<T>(k: KeyView) -> spec_fn((T, KeyView)) -> bool {
    |r: (T, KeyView)| r.1 == k
}

/// The rows of `s` whose key is `k`, in order.
pub open spec fn ties<T>(s: Seq<(T, KeyView)>, k: KeyView) -> Seq<(T, KeyView)> {
    s.filter(has_key(k))
}

proof fn lemma_ties_single<T>(x: (T, KeyView), k: KeyView)
    ensures
        ties(seq![x], k) == if x.1 == k {
            seq![x]
        } else {
            Seq::<(T, KeyView)>::empty()
        },
{
    reveal_with_fuel(Seq::filter, 2);
    assert(seq![x].drop_last() =~= Seq::<(T, KeyView)>::empty());
    assert(seq![x].last() == x);
    if x.1 == k {
        assert(Seq::<(T, KeyView)>::empty().push(x) =~= seq![x]);
    }
}

proof fn lemma_insert_ties<T>(t: Seq<(T, KeyView)>, x: (T, KeyView), dir: SortDir, k: KeyView)
    requires
        keys_ordered(t, dir),
    ensures
        ties(insert_stable(t, x, dir), k) == if x.1 == k {
            ties(t, k).push(x)
        } else {
            ties(t, k)
        },
    decreases t.len(),
{
    broadcast use vstd::seq::Seq::filter_distributes_over_add;

    let pred = has_key::<T>(k);
    lemma_ties_single(x, k);
    if t.len() == 0 {
        assert(t.filter(pred) =~= Seq::<(T, KeyView)>::empty());
        assert(insert_stable(t, x, dir) == seq![x]);
        if x.1 == k {
            assert(Seq::<(T, KeyView)>::empty().push(x) =~= seq![x]);
        }
    } else if key_order(t[0].1, x.1, dir) > 0 {
        assert(insert_stable(t, x, dir) == seq![x] + t);
        assert(ties(seq![x] + t, k) == ties(seq![x], k) + ties(t, k));
        if x.1 == k {
            // Every row of `t` goes after `x`, so none has its key.
            if ties(t, k).len() > 0 {
                let e = ties(t, k)[0];
                t.lemma_filter_pred(pred, 0);
                assert(ties(t, k).contains(e));
                t.lemma_filter_contains_rev(pred, e);
                let j = choose|j: int| 0 <= j < t.len() && t[j] == e;
                lemma_ordered_from(t, dir, 0, j);
                assert(false);
            }
            assert(ties(t, k) =~= Seq::<(T, KeyView)>::empty());
            assert(seq![x] + Seq::<(T, KeyView)>::empty() =~= Seq::<(T, KeyView)>::empty().push(x));
        } else {
            assert(Seq::<(T, KeyView)>::empty() + ties(t, k) =~= ties(t, k));
        }
    } else {
        let u = t.drop_first();
        assert forall|i: int| 0 <= i < u.len() - 1 implies key_order(#[trigger] u[i].1, u[i + 1].1, dir) <= 0 by {
            assert(u[i] == t[i + 1]);
            assert(u[i + 1] == t[i + 2]);
            assert(key_order(t[i + 1].1, t[i + 2].1, dir) <= 0);
        }
        lemma_insert_ties(u, x, dir, k);
        lemma_ties_single(t[0], k);
        assert(insert_stable(t, x, dir) == seq![t[0]] + insert_stable(u, x, dir));
        assert(t =~= seq![t[0]] + u);
        assert(ties(seq![t[0]] + insert_stable(u, x, dir), k) == ties(seq![t[0]], k) + ties(
            insert_stable(u, x, dir),
            k,
        ));
        assert(ties(seq![t[0]] + u, k) == ties(seq![t[0]], k) + ties(u, k));
        if x.1 == k {
            assert(ties(seq![t[0]], k) + ties(u, k).push(x) =~= (ties(seq![t[0]], k) + ties(u, k)).push(x));
        }
    }
}

/// Sorting is stable: the rows that share a key come out in the order they
/// came in.
pub proof fn law_sort_keeps_ties_in_order<T>(s: Seq<(T, KeyView)>, dir: SortDir, k: KeyView)
    ensures
        ties(stable_sort(s, dir), k) == ties(s, k),
    decreases s.len(),
{
    if s.len() > 0 {
        let s0 = s.drop_last();
        law_sort_keeps_ties_in_order(s0, dir, k);
        law_sort_orders_rows(s0, dir);
        lemma_insert_ties(stable_sort(s0, dir), s.last(), dir, k);
        assert(stable_sort(s, dir) == insert_stable(stable_sort(s0, dir), s.last(), dir));
        assert(has_key::<T>(k)(s.last()) == (s.last().1 == k));
        reveal(Seq::filter);
        assert(ties(s, k) == if s.last().1 == k {
            ties(s0, k).push(s.last())
        } else {
            ties(s0, k)
        });
    }
}

} // verus!
