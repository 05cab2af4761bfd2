//! Stable ordering by text, as the library list shows themes: lexicographic by
//! character (which is the byte order of UTF-8), equal names keeping their order.
use vstd::prelude::*;

verus! {

/// `a` sorts strictly before `b`.
pub open spec fn lex_lt(a: Seq<char>, b: Seq<char>) -> bool
    decreases a.len(),
{
    if a.len() == 0 {
        b.len() > 0
    } else if b.len() == 0 {
        false
    } else if a[0] != b[0] {
        a[0] < b[0]
    } else {
        lex_lt(a.drop_first(), b.drop_first())
    }
}

/// Whether `a` sorts strictly before `b`.
pub fn text_less(a: &[char], b: &[char]) -> (r: bool)
    ensures
        r == lex_lt(a@, b@),
{
    let mut i: usize = 0;
    assert(a@.skip(0) =~= a@ && b@.skip(0) =~= b@);
    while i < a.len() && i < b.len()
        invariant
            i <= a@.len(),
            i <= b@.len(),
            lex_lt(a@, b@) == lex_lt(a@.skip(i as int), b@.skip(i as int)),
        decreases a@.len() - i,
    {
        assert(a@.skip(i as int).drop_first() =~= a@.skip(i + 1));
        assert(b@.skip(i as int).drop_first() =~= b@.skip(i + 1));
        if a[i] != b[i] {
            return a[i] < b[i];
        }
        i = i + 1;
    }
    a.len() < b.len()
}

/// Names are compared character by character: where two names first differ, the one
/// with the smaller character (by code point) sorts first.
pub proof fn lemma_lex_lt_first_difference(a: Seq<char>, b: Seq<char>, i: int)
    requires
        0 <= i < a.len(),
        i < b.len(),
        a.take(i) == b.take(i),
        a[i] != b[i],
    ensures
        lex_lt(a, b) == (a[i] < b[i]),
        lex_lt(b, a) == (b[i] < a[i]),
    decreases i,
{
    if i > 0 {
        assert(a[0] == a.take(i)[0] && b[0] == b.take(i)[0]);
        assert(a.drop_first().take(i - 1) =~= a.take(i).drop_first());
        assert(b.drop_first().take(i - 1) =~= b.take(i).drop_first());
        lemma_lex_lt_first_difference(a.drop_first(), b.drop_first(), i - 1);
    }
}

/// A name sorts after every proper prefix of it, and no name sorts before itself.
pub proof fn lemma_lex_lt_prefix(a: Seq<char>, b: Seq<char>)
    requires
        a.len() <= b.len(),
        b.take(a.len() as int) == a,
    ensures
        lex_lt(a, b) == (a.len() < b.len()),
        !lex_lt(b, a),
    decreases a.len(),
{
    if a.len() > 0 {
        assert(a[0] == b.take(a.len() as int)[0]);
        assert(b.drop_first().take(a.len() - 1) =~= b.take(a.len() as int).drop_first());
        lemma_lex_lt_prefix(a.drop_first(), b.drop_first());
    }
}

/// The first position of `order` whose name sorts after the name of `x`.
pub open spec fn first_greater(order: Seq<int>, names: Seq<Seq<char>>, x: int) -> int
    decreases order.len(),
{
    if order.len() == 0 {
        0
    } else if lex_lt(names[x], names[order[0]]) {
        0
    } else {
        1 + first_greater(order.drop_first(), names, x)
    }
}

/// `order` with `x` inserted after every entry whose name does not sort after it.
pub open spec fn insert_stable(order: Seq<int>, names: Seq<Seq<char>>, x: int) -> Seq<int> {
    let p = first_greater(order, names, x);
    order.take(p).push(x) + order.skip(p)
}

/// The positions `0..n` of `names` in stable name order.
pub open spec fn stable_order(names: Seq<Seq<char>>, n: int) -> Seq<int>
    decreases n,
{
    if n <= 0 {
        Seq::empty()
    } else {
        insert_stable(stable_order(names, n - 1), names, n - 1)
    }
}

proof fn lemma_first_greater_range(order: Seq<int>, names: Seq<Seq<char>>, x: int)
    ensures
        0 <= first_greater(order, names, x) <= order.len(),
    decreases order.len(),
{
    if order.len() > 0 {
        lemma_first_greater_range(order.drop_first(), names, x);
    }
}

/// The positions of `names` in stable name order.
pub fn sort_order(names: &Vec<Vec<char>>) -> (r: Vec<usize>)
    ensures
        r@.map_values(|i: usize| i as int) == stable_order(
            names@.map_values(|v: Vec<char>| v@),
            names@.len() as int,
        ),
{
    let ghost views = names@.map_values(|v: Vec<char>| v@);
    let mut order: Vec<usize> = Vec::new();
    let mut i: usize = 0;
    while i < names.len()
        invariant
            i <= names@.len(),
            views == names@.map_values(|v: Vec<char>| v@),
            order@.map_values(|k: usize| k as int) == stable_order(views, i as int),
            forall|k: int| 0 <= k < order@.len() ==> (#[trigger] order@[k]) < i,
            order@.len() == i,
        decreases names@.len() - i,
    {
        let ghost ord = order@.map_values(|k: usize| k as int);
        let mut p: usize = 0;
        assert(ord.skip(0) =~= ord);
        proof { lemma_first_greater_range(ord, views, i as int); }
        while p < order.len() && !text_less(names[i].as_slice(), names[order[p]].as_slice())
            invariant
                p <= order@.len(),
                ord == order@.map_values(|k: usize| k as int),
                views == names@.map_values(|v: Vec<char>| v@),
                i < names@.len(),
                forall|k: int| 0 <= k < order@.len() ==> (#[trigger] order@[k]) < i,
                first_greater(ord, views, i as int) == p + first_greater(
                    ord.skip(p as int),
                    views,
                    i as int,
                ),
            decreases order@.len() - p,
        {
            assert(ord.skip(p as int).drop_first() =~= ord.skip(p + 1));
            assert(ord.skip(p as int)[0] == order@[p as int] as int);
            assert(views[order@[p as int] as int] == names@[order@[p as int] as int]@);
            assert(views[i as int] == names@[i as int]@);
            p = p + 1;
        }
        proof {
            if p < order@.len() {
                assert(ord.skip(p as int)[0] == order@[p as int] as int);
                assert(views[order@[p as int] as int] == names@[order@[p as int] as int]@);
                assert(views[i as int] == names@[i as int]@);
            }
        }
        assert(first_greater(ord, views, i as int) == p);
        order.insert(p, i);
        assert(order@.map_values(|k: usize| k as int) =~= insert_stable(ord, views, i as int));
        i = i + 1;
    }
    order
}


/// The stable order of `0..n` holds each position below `n` exactly once.
pub proof fn lemma_stable_order_perm(names: Seq<Seq<char>>, n: int)
    requires
        n >= 0,
    ensures
        stable_order(names, n).len() == n,
        forall|m: int| 0 <= m < n ==> 0 <= #[trigger] stable_order(names, n)[m] < n,
        forall|a: int, b: int|
            0 <= a < b < n ==> stable_order(names, n)[a] != stable_order(names, n)[b],
        forall|x: int| 0 <= x < n ==> stable_order(names, n).contains(x),
    decreases n,
{
    if n > 0 {
        let prev = stable_order(names, n - 1);
        lemma_stable_order_perm(names, n - 1);
        let p = first_greater(prev, names, n - 1);
        lemma_first_greater_range(prev, names, n - 1);
        let o = stable_order(names, n);
        assert(o == prev.take(p).push(n - 1) + prev.skip(p));
        assert(o.len() == n);
        assert forall|m: int| 0 <= m < n implies 0 <= #[trigger] o[m] < n by {
            if m < p {
                assert(o[m] == prev[m]);
            } else if m > p {
                assert(o[m] == prev[m - 1]);
            }
        }
        assert forall|a: int, b: int| 0 <= a < b < n implies o[a] != o[b] by {
            let pa = if a < p { a } else if a > p { a - 1 } else { -1 };
            let pb = if b < p { b } else if b > p { b - 1 } else { -1 };
            if a != p && b != p {
                assert(o[a] == prev[pa]);
                assert(o[b] == prev[pb]);
            } else if a == p {
                assert(o[b] == prev[pb]);
            } else {
                assert(o[a] == prev[pa]);
            }
        }
        assert forall|x: int| 0 <= x < n implies o.contains(x) by {
            if x == n - 1 {
                assert(o[p] == x);
            } else {
                assert(prev.contains(x));
                let m = choose|m: int| 0 <= m < prev.len() && prev[m] == x;
                if m < p {
                    assert(o[m] == x);
                } else {
                    assert(o[m + 1] == x);
                }
            }
        }
    }
}


proof fn lemma_lex_asym(a: Seq<char>, b: Seq<char>)
    ensures
        lex_lt(a, b) ==> !lex_lt(b, a),
    decreases a.len(),
{
    if a.len() > 0 && b.len() > 0 && a[0] == b[0] {
        lemma_lex_asym(a.drop_first(), b.drop_first());
    }
}

proof fn lemma_lex_trans(a: Seq<char>, b: Seq<char>, c: Seq<char>)
    ensures
        lex_lt(a, b) && lex_lt(b, c) ==> lex_lt(a, c),
    decreases a.len(),
{
    if a.len() > 0 && b.len() > 0 && c.len() > 0 {
        lemma_lex_trans(a.drop_first(), b.drop_first(), c.drop_first());
    }
}

proof fn lemma_lex_total(a: Seq<char>, b: Seq<char>)
    ensures
        a != b ==> lex_lt(a, b) || lex_lt(b, a),
    decreases a.len(),
{
    if a.len() > 0 && b.len() > 0 {
        lemma_lex_total(a.drop_first(), b.drop_first());
        if a[0] == b[0] && a.drop_first() == b.drop_first() {
            assert(a =~= seq![a[0]] + a.drop_first());
            assert(b =~= seq![b[0]] + b.drop_first());
        }
    } else if a.len() == 0 && b.len() == 0 {
        assert(a =~= b);
    }
}

proof fn lemma_first_greater_props(order: Seq<int>, names: Seq<Seq<char>>, x: int)
    ensures
        forall|i: int| 0 <= i < first_greater(order, names, x) ==> !lex_lt(names[x], names[#[trigger] order[i]]),
        first_greater(order, names, x) < order.len() ==> lex_lt(
            names[x],
            names[order[first_greater(order, names, x)]],
        ),
    decreases order.len(),
{
    lemma_first_greater_range(order, names, x);
    if order.len() > 0 && !lex_lt(names[x], names[order[0]]) {
        let rest = order.drop_first();
        lemma_first_greater_range(rest, names, x);
        lemma_first_greater_props(rest, names, x);
        assert forall|i: int| 0 <= i < first_greater(order, names, x) implies !lex_lt(
            names[x],
            names[#[trigger] order[i]],
        ) by {
            if i > 0 {
                assert(order[i] == rest[i - 1]);
            }
        }
        if first_greater(order, names, x) < order.len() {
            assert(order[first_greater(order, names, x)] == rest[first_greater(rest, names, x)]);
        }
    }
}

/// Positions `a < b` of an order are in name order, and positions with equal names keep
/// their original order.
pub open spec fn ordered_pair(o: Seq<int>, names: Seq<Seq<char>>, a: int, b: int) -> bool {
    &&& !lex_lt(names[o[b]], names[o[a]])
    &&& (names[o[a]] == names[o[b]] ==> o[a] < o[b])
}

/// The stable order lists names in ascending order, and equal names in their original
/// order.
pub proof fn lemma_stable_order_sorted(names: Seq<Seq<char>>, n: int)
    requires
        0 <= n <= names.len(),
    ensures
        forall|a: int, b: int|
            0 <= a < b < n ==> #[trigger] ordered_pair(stable_order(names, n), names, a, b),
    decreases n,
{
    if n > 0 {
        let x = n - 1;
        let prev = stable_order(names, n - 1);
        lemma_stable_order_sorted(names, n - 1);
        lemma_stable_order_perm(names, n - 1);
        lemma_stable_order_perm(names, n);
        let p = first_greater(prev, names, x);
        lemma_first_greater_range(prev, names, x);
        lemma_first_greater_props(prev, names, x);
        let o = stable_order(names, n);
        assert(o == prev.take(p).push(x) + prev.skip(p));
        assert forall|a: int, b: int| 0 <= a < b < n implies #[trigger] ordered_pair(o, names, a, b) by {
            let ia = if a < p { a } else { a - 1 };
            let ib = if b < p { b } else { b - 1 };
            if a != p && b != p {
                assert(o[a] == prev[ia]);
                assert(o[b] == prev[ib]);
                assert(ordered_pair(prev, names, ia, ib));
            } else if b == p {
                assert(o[a] == prev[a]);
                assert(o[b] == x);
                assert(!lex_lt(names[x], names[prev[a]]));
                assert(prev[a] < x);
            } else {
                assert(a == p);
                assert(o[a] == x);
                assert(o[b] == prev[ib]);
                assert(p < prev.len());
                let g = prev[p];
                assert(lex_lt(names[x], names[g]));
                if ib > p {
                    assert(ordered_pair(prev, names, p, ib));
                    lemma_lex_trans(names[prev[ib]], names[x], names[g]);
                }
                lemma_lex_asym(names[x], names[prev[ib]]);
                if ib > p {
                    lemma_lex_asym(names[prev[ib]], names[g]);
                    lemma_lex_trans(names[x], names[g], names[prev[ib]]);
                    lemma_lex_total(names[g], names[prev[ib]]);
                    lemma_lex_asym(names[x], names[x]);
                }
                if names[x] == names[prev[ib]] {
                    lemma_lex_asym(names[x], names[x]);
                }
            }
        }
    }
}

} // verus!
