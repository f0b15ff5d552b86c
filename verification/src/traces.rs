//! Lists that hold, one for one, what a family of causes gives.

use vstd::prelude::*;

use crate::order::{arranged, put, Ranked};

verus! {

/// Are `items`, one for one, what `item` gives of the causes in `scope`: does each
/// come of the cause at its place, no cause twice, and is no cause left out that
/// gives something?
pub open spec fn traces<T, O>(
    items: Seq<T>,
    causes: Seq<O>,
    item: spec_fn(O) -> Option<T>,
    scope: spec_fn(O) -> bool,
) -> bool {
    &&& causes.len() == items.len()
    &&& causes.no_duplicates()
    &&& forall|m: int|
        0 <= m < causes.len() ==> scope(#[trigger] causes[m]) && item(causes[m]) == Some(items[m])
    &&& forall|o: O| scope(o) && #[trigger] item(o) is Some ==> causes.contains(o)
}

/// Every cause.
pub open spec fn anywhere<O>() -> spec_fn(O) -> bool {
    |o: O| true
}

/// Are `items`, in some order, exactly what `item` gives: one for each cause that
/// gives something, and nothing else?
pub open spec fn is_all_of<T, O>(items: Seq<T>, item: spec_fn(O) -> Option<T>) -> bool {
    exists|causes: Seq<O>| #[trigger] traces(items, causes, item, anywhere::<O>())
}

/// Does a cause give `x`?
pub open spec fn is_given<T, O>(x: T, item: spec_fn(O) -> Option<T>) -> bool {
    exists|o: O| #[trigger] item(o) == Some(x)
}

/// What each cause gives is there, and all that is there comes of a cause.
pub proof fn lemma_all_of<T, O>(items: Seq<T>, item: spec_fn(O) -> Option<T>)
    requires
        is_all_of(items, item),
    ensures
        forall|o: O| (#[trigger] item(o)) is Some ==> items.contains(item(o)->0),
        forall|m: int| 0 <= m < items.len() ==> is_given(#[trigger] items[m], item),
{
    let causes = choose|causes: Seq<O>| #[trigger] traces(items, causes, item, anywhere::<O>());
    assert forall|o: O| (#[trigger] item(o)) is Some implies items.contains(item(o)->0) by {
        assert(anywhere::<O>()(o));
        let m = choose|m: int| 0 <= m < causes.len() && causes[m] == o;
        assert(items[m] == item(o)->0);
    }
    assert forall|m: int| 0 <= m < items.len() implies is_given(#[trigger] items[m], item) by {
        assert(item(causes[m]) == Some(items[m]));
    }
}

/// Two lists behind each other.
pub proof fn lemma_trace_concat<T, O>(
    a: Seq<T>,
    x: Seq<O>,
    in_a: spec_fn(O) -> bool,
    b: Seq<T>,
    y: Seq<O>,
    in_b: spec_fn(O) -> bool,
    item: spec_fn(O) -> Option<T>,
    scope: spec_fn(O) -> bool,
)
    requires
        traces(a, x, item, in_a),
        traces(b, y, item, in_b),
        forall|o: O|
            (#[trigger] item(o)) is Some ==> scope(o) == (in_a(o) || in_b(o)) && !(in_a(o) && in_b(
                o,
            )),
    ensures
        traces(a + b, x + y, item, scope),
{
    let z = x + y;
    assert forall|m: int| 0 <= m < z.len() implies scope(#[trigger] z[m]) && item(z[m]) == Some(
        (a + b)[m],
    ) by {
        if m < x.len() {
            assert(z[m] == x[m]);
        } else {
            assert(z[m] == y[m - x.len()]);
        }
    }
    assert forall|i: int, j: int| 0 <= i < z.len() && 0 <= j < z.len() && i != j implies z[i]
        != z[j] by {
        if i < x.len() && j >= x.len() {
            assert(in_a(x[i]) && in_b(y[j - x.len()]) && item(x[i]) is Some);
        } else if j < x.len() && i >= x.len() {
            assert(in_a(x[j]) && in_b(y[i - x.len()]) && item(x[j]) is Some);
        } else if i < x.len() {
            assert(x[i] != x[j]);
        } else {
            assert(y[i - x.len()] != y[j - x.len()]);
        }
    }
    assert forall|o: O| scope(o) && #[trigger] item(o) is Some implies z.contains(o) by {
        if in_a(o) {
            let m = choose|m: int| 0 <= m < x.len() && x[m] == o;
            assert(z[m] == o);
        } else {
            let m = choose|m: int| 0 <= m < y.len() && y[m] == o;
            assert(z[x.len() + m] == o);
        }
    }
}

/// The same list over a scope that differs only in causes that give nothing.
pub proof fn lemma_trace_rescope<T, O>(
    a: Seq<T>,
    x: Seq<O>,
    from: spec_fn(O) -> bool,
    item: spec_fn(O) -> Option<T>,
    to: spec_fn(O) -> bool,
)
    requires
        traces(a, x, item, from),
        forall|o: O| (#[trigger] item(o)) is Some ==> from(o) == to(o),
    ensures
        traces(a, x, item, to),
{
    assert forall|m: int| 0 <= m < x.len() implies to(#[trigger] x[m]) && item(x[m]) == Some(
        a[m],
    ) by {
        assert(from(x[m]));
    }
}

/// The same list, with the causes renamed.
pub proof fn lemma_trace_rename<T, O, P>(
    a: Seq<T>,
    x: Seq<O>,
    item: spec_fn(O) -> Option<T>,
    from: spec_fn(O) -> bool,
    name: spec_fn(O) -> P,
    back: spec_fn(P) -> O,
    given: spec_fn(P) -> Option<T>,
    to: spec_fn(P) -> bool,
) -> (y: Seq<P>)
    requires
        traces(a, x, item, from),
        forall|o: O| #[trigger] back(name(o)) == o,
        forall|o: O|
            from(o) && (#[trigger] item(o)) is Some ==> to(name(o)) && given(name(o)) == item(o),
        forall|p: P|
            to(p) && (#[trigger] given(p)) is Some ==> from(back(p)) && item(back(p)) is Some
                && name(back(p)) == p,
    ensures
        traces(a, y, given, to),
{
    let y = x.map_values(name);
    assert forall|m: int| 0 <= m < y.len() implies to(#[trigger] y[m]) && given(y[m]) == Some(
        a[m],
    ) by {
        assert(from(x[m]) && item(x[m]) is Some);
        assert(y[m] == name(x[m]));
    }
    assert forall|i: int, j: int| 0 <= i < y.len() && 0 <= j < y.len() && i != j implies y[i]
        != y[j] by {
        assert(x[i] != x[j]);
        assert(back(name(x[i])) == x[i] && back(name(x[j])) == x[j]);
    }
    assert forall|p: P| to(p) && #[trigger] given(p) is Some implies y.contains(p) by {
        let o = back(p);
        assert(item(o) is Some);
        let m = choose|m: int| 0 <= m < x.len() && x[m] == o;
        assert(y[m] == p);
    }
    y
}

// ---------------------------------------------------------------------------
// Sorting
// ---------------------------------------------------------------------------
/// Is `places` a rearrangement of the places of `s` that gives `t`?
pub open spec fn rearranges<T>(s: Seq<T>, t: Seq<T>, places: Seq<int>) -> bool {
    &&& places.len() == s.len() == t.len()
    &&& places.no_duplicates()
    &&& forall|i: int| 0 <= i < places.len() ==> 0 <= #[trigger] places[i] < s.len()
    &&& forall|i: int| 0 <= i < places.len() ==> #[trigger] t[i] == s[places[i]]
}

proof fn lemma_put_places<T: Ranked>(s: Seq<T>, t: Seq<T>, x: T, places: Seq<int>) -> (r: Seq<int>)
    requires
        rearranges(s, t, places),
        crate::order::is_ascending(t),
        forall|i: int, j: int|
            0 <= i < j < t.len() && (#[trigger] t[j]).leq(#[trigger] t[i]) ==> places[i]
                < places[j],
    ensures
        rearranges(s.push(x), put(t, x), r),
        forall|i: int, j: int|
            0 <= i < j < put(t, x).len() && (#[trigger] put(t, x)[j]).leq(#[trigger] put(t, x)[i])
                ==> r[i] < r[j],
    decreases t.len(),
{
    let k = lemma_put_at(t, x);
    let u = put(t, x);
    let n = s.len() as int;
    let r = places.take(k).push(n) + places.skip(k);
    assert forall|i: int| 0 <= i < r.len() implies 0 <= #[trigger] r[i] < n + 1 && u[i] == s.push(
        x,
    )[r[i]] by {
        if i < k {
            assert(r[i] == places[i] && u[i] == t[i]);
        } else if i > k {
            assert(r[i] == places[i - 1] && u[i] == t[i - 1]);
        }
    }
    assert forall|i: int, j: int| 0 <= i < r.len() && 0 <= j < r.len() && i != j implies r[i]
        != r[j] by {
        let a = if i < k {
            i
        } else {
            i - 1
        };
        let b = if j < k {
            j
        } else {
            j - 1
        };
        if i == k {
            assert(r[j] == places[b]);
        } else if j == k {
            assert(r[i] == places[a]);
        } else {
            assert(r[i] == places[a] && r[j] == places[b]);
            assert(a != b);
        }
    }
    assert forall|i: int, j: int|
        0 <= i < j < u.len() && (#[trigger] u[j]).leq(#[trigger] u[i]) implies r[i] < r[j] by {
        if j < k {
            assert(u[i] == t[i] && u[j] == t[j]);
        } else if j == k {
            assert(r[i] == places[i]);
        } else if i == k {
            assert(u[j] == t[j - 1]);
            assert(!t[j - 1].leq(x));
        } else {
            let a = if i < k {
                i
            } else {
                i - 1
            };
            assert(u[i] == t[a] && u[j] == t[j - 1]);
            assert(places[a] < places[j - 1]);
        }
    }
    r
}

/// Where an item is put in: behind all that do not rank behind it.
proof fn lemma_put_at<T: Ranked>(t: Seq<T>, x: T) -> (k: int)
    requires
        crate::order::is_ascending(t),
    ensures
        0 <= k <= t.len(),
        put(t, x) == t.take(k).push(x) + t.skip(k),
        forall|i: int| k <= i < t.len() ==> !(#[trigger] t[i]).leq(x),
    decreases t.len(),
{
    if t.len() > 0 && !t.last().leq(x) {
        let u = t.drop_last();
        assert forall|i: int, j: int| 0 <= i < j < u.len() implies (#[trigger] u[i]).leq(
            #[trigger] u[j],
        ) by {
            assert(t[i].leq(t[j]));
        }
        let k = lemma_put_at(u, x);
        assert(u.take(k) == t.take(k));
        assert((u.take(k).push(x) + u.skip(k)).push(t.last()) == t.take(k).push(x) + t.skip(k));
        assert forall|i: int| k <= i < t.len() implies !(#[trigger] t[i]).leq(x) by {
            if i < u.len() {
                assert(u[i] == t[i]);
            }
        }
        k
    } else {
        let k = t.len() as int;
        assert(t.take(k) == t);
        assert(t.push(x) + t.skip(k) == t.push(x));
        k
    }
}

proof fn lemma_arranged_places<T: Ranked>(s: Seq<T>) -> (r: Seq<int>)
    ensures
        rearranges(s, arranged(s), r),
        forall|i: int, j: int|
            0 <= i < j < arranged(s).len() && (#[trigger] arranged(s)[j]).leq(
                #[trigger] arranged(s)[i],
            ) ==> r[i] < r[j],
    decreases s.len(),
{
    if s.len() == 0 {
        Seq::<int>::empty()
    } else {
        let u = s.drop_last();
        let p = lemma_arranged_places(u);
        crate::order::law_arranged(u);
        assert(u.push(s.last()) == s);
        lemma_put_places(u, arranged(u), s.last(), p)
    }
}

/// Sorting is stable: the sorted list is a rearrangement of the list, in ascending
/// order, in which items that rank the same stand in the order in which they came.
pub proof fn law_sort_is_stable<T: Ranked>(s: Seq<T>)
    ensures
        exists|places: Seq<int>| #[trigger]
            rearranges(s, arranged(s), places) && (forall|i: int, j: int|
                0 <= i < j < s.len() ==> (#[trigger] arranged(s)[i]).leq(#[trigger] arranged(s)[j])
                    && (arranged(s)[j].leq(arranged(s)[i]) ==> places[i] < places[j])),
{
    let places = lemma_arranged_places(s);
    crate::order::law_arranged(s);
    assert(rearranges(s, arranged(s), places));
}

/// Sorting keeps what a list comes of.
pub proof fn lemma_all_of_arranged<T: Ranked, O>(s: Seq<T>, item: spec_fn(O) -> Option<T>)
    requires
        is_all_of(s, item),
    ensures
        is_all_of(arranged(s), item),
{
    let scope = anywhere::<O>();
    let causes = choose|causes: Seq<O>| #[trigger] traces(s, causes, item, scope);
    let p = lemma_arranged_places(s);
    let t = arranged(s);
    let moved = Seq::new(t.len(), |i: int| causes[p[i]]);
    assert forall|m: int| 0 <= m < moved.len() implies scope(#[trigger] moved[m]) && item(moved[m])
        == Some(t[m]) by {
        assert(0 <= p[m] < s.len());
        assert(t[m] == s[p[m]]);
        assert(item(causes[p[m]]) == Some(s[p[m]]));
    }
    assert forall|i: int, j: int| 0 <= i < moved.len() && 0 <= j < moved.len() && i != j implies
        moved[i] != moved[j] by {
        assert(0 <= p[i] < s.len() && 0 <= p[j] < s.len());
        assert(p[i] != p[j]);
        assert(causes[p[i]] != causes[p[j]]);
    }
    assert forall|o: O| scope(o) && #[trigger] item(o) is Some implies moved.contains(o) by {
        assert(causes.contains(o));
        let m = choose|m: int| 0 <= m < causes.len() && causes[m] == o;
        lemma_onto(p, m);
        let i = choose|i: int| 0 <= i < p.len() && p[i] == m;
        assert(moved[i] == o);
    }
    assert(traces(t, moved, item, scope));
}

/// A list of different places that has as many as there are holds each of them.
proof fn lemma_onto(p: Seq<int>, m: int)
    requires
        p.no_duplicates(),
        forall|i: int| 0 <= i < p.len() ==> 0 <= #[trigger] p[i] < p.len(),
        0 <= m < p.len(),
    ensures
        p.contains(m),
{
    if !p.contains(m) {
        let n = p.len() as int;
        let all = vstd::set_lib::set_int_range(0, n);
        vstd::set_lib::lemma_int_range(0, n);
        p.unique_seq_to_set();
        assert(p.to_set().subset_of(all.remove(m))) by {
            assert forall|x: int| p.to_set().contains(x) implies all.remove(m).contains(x) by {
                let i = choose|i: int| 0 <= i < p.len() && p[i] == x;
                assert(p[i] == x);
            }
        }
        vstd::set_lib::lemma_len_subset(p.to_set(), all.remove(m));
    }
}

} // verus!
