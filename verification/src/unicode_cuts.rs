//! NFC and cutting characters off at either end of a text.

use vstd::prelude::*;

use crate::unicode::{
    decompose, decompose_all, insert_mark, joined, nfc, nfd, pass, reorder, step, Pass,
};
use crate::unicode_compose::{ccc, lemma_low_is_starter};
use crate::unicode_laws::{
    all_reduced, in_order, is_reduced, lemma_boundary, lemma_decompose, lemma_decompose_concat,
    lemma_decompose_one, lemma_join, lemma_nfd, lemma_nfd_split, lemma_pass, lemma_pass_split,
    lemma_push_nfd, lemma_reorder_len,
};

verus! {

// ---------------------------------------------------------------------------
// Leading spaces
// ---------------------------------------------------------------------------
proof fn lemma_reorder_behind_space(s: Seq<char>)
    ensures
        reorder(seq![' '] + s) == seq![' '] + reorder(s),
    decreases s.len(),
{
    lemma_low_is_starter(' ');
    let all = seq![' '] + s;
    if s.len() == 0 {
        assert(all == seq![' ']);
        assert(all.drop_last() == Seq::<char>::empty());
        reveal_with_fuel(reorder, 2);
        assert(reorder(all) == seq![' '] + reorder(s));
    } else {
        assert(all.drop_last() == seq![' '] + s.drop_last());
        lemma_reorder_behind_space(s.drop_last());
        lemma_insert_behind_space(reorder(s.drop_last()), s.last());
    }
}

proof fn lemma_insert_behind_space(t: Seq<char>, c: char)
    ensures
        insert_mark(seq![' '] + t, c) == seq![' '] + insert_mark(t, c),
    decreases t.len(),
{
    lemma_low_is_starter(' ');
    let all = seq![' '] + t;
    if ccc(c) != 0 && t.len() > 0 && ccc(t.last()) > ccc(c) {
        assert(all.drop_last() == seq![' '] + t.drop_last());
        assert(all.last() == t.last());
        lemma_insert_behind_space(t.drop_last(), c);
        assert(insert_mark(all, c) == seq![' '] + insert_mark(t, c));
    } else {
        assert(all.push(c) == seq![' '] + t.push(c));
        if t.len() > 0 {
            assert(all.last() == t.last());
        } else {
            assert(all.last() == ' ');
        }
    }
}

/// A composition pass behind a space writes what it writes without the space.
proof fn lemma_pass_behind_space(s: Seq<char>)
    ensures
        pass(seq![' '] + s).out == seq![' '] + pass(s).out,
        pass(seq![' '] + s).last == pass(s).last,
        pass(s).starter is Some ==> 0 <= pass(s).starter->0 < pass(s).out.len() && pass(
            seq![' '] + s,
        ).starter == Some(pass(s).starter->0 + 1),
        pass(s).starter is None ==> pass(seq![' '] + s).starter == Some(0int),
    decreases s.len(),
{
    lemma_boundary(' ');
    let all = seq![' '] + s;
    if s.len() == 0 {
        assert(all == seq![' ']);
        assert(all.drop_last() == Seq::<char>::empty());
        reveal_with_fuel(pass, 2);
        assert(pass(all).out == seq![' '] + pass(s).out);
    } else {
        assert(all.drop_last() == seq![' '] + s.drop_last());
        lemma_pass_behind_space(s.drop_last());
        let p = pass(s.drop_last());
        let q = pass(all.drop_last());
        let c = s.last();
        if p.starter is None {
            assert(q.out[0] == ' ');
            if joined(q, c) is Some {
                lemma_join(' ', c);
            }
        } else {
            assert(q.out[q.starter->0] == p.out[p.starter->0]);
            assert(joined(q, c) == joined(p, c));
        }
        assert(pass(all).out == seq![' '] + pass(s).out);
    }
}

/// A leading space stays by itself: it never joins with what follows.
pub proof fn law_nfc_behind_space(s: Seq<char>)
    ensures
        nfc(seq![' '] + s) == seq![' '] + nfc(s),
{
    lemma_decompose_concat(seq![' '], s);
    lemma_decompose_one(' ');
    lemma_boundary(' ');
    lemma_reorder_behind_space(decompose_all(s));
    lemma_pass_behind_space(nfd(s));
}

// ---------------------------------------------------------------------------
// The last character
// ---------------------------------------------------------------------------
proof fn lemma_nfd_len(s: Seq<char>)
    ensures
        nfd(s).len() == decompose_all(s).len(),
{
    lemma_reorder_len(decompose_all(s));
}

/// The last starter of a pass is in range and decomposes into a starter first.
proof fn lemma_starter(s: Seq<char>)
    requires
        all_reduced(s),
    ensures
        pass(s).starter is Some ==> {
            &&& 0 <= pass(s).starter->0 < pass(s).out.len()
            &&& ccc(decompose(pass(s).out[pass(s).starter->0])[0]) == 0
        },
        pass(s).starter is None ==> pass(s).out == s,
    decreases s.len(),
{
    if s.len() > 0 {
        let u = s.drop_last();
        let c = s.last();
        assert(is_reduced(s[s.len() - 1]));
        assert forall|i: int| 0 <= i < u.len() implies is_reduced(#[trigger] u[i]) by {
            assert(u[i] == s[i]);
        }
        lemma_starter(u);
        let p = pass(u);
        if joined(p, c) is Some {
            lemma_join(p.out[p.starter->0], c);
            lemma_decompose(p.out[p.starter->0]);
        } else {
            assert(u.push(c) == s);
        }
    } else {
        assert(s == Seq::<char>::empty());
    }
}

/// What a pass has written is kept by its later steps, but for the last starter,
/// which may take on further characters.
spec fn extends(p: Pass, q: Pass) -> bool {
    &&& q.out.len() >= p.out.len()
    &&& forall|j: int|
        0 <= j < p.out.len() && p.starter != Some(j) ==> #[trigger] q.out[j] == p.out[j]
    &&& p.starter is Some ==> decompose(q.out[p.starter->0]).len() >= decompose(
        p.out[p.starter->0],
    ).len()
    &&& q.starter == p.starter || (q.starter is Some && p.out.len() <= q.starter->0
        < q.out.len())
}

proof fn lemma_extends(x: Seq<char>, y: Seq<char>)
    requires
        pass(x).starter is Some ==> 0 <= pass(x).starter->0 < pass(x).out.len(),
    ensures
        extends(pass(x), pass(x + y)),
    decreases y.len(),
{
    if y.len() == 0 {
        assert(x + y == x);
    } else {
        assert((x + y).drop_last() == x + y.drop_last());
        lemma_extends(x, y.drop_last());
        let p = pass(x + y.drop_last());
        if joined(p, y.last()) is Some {
            lemma_join(p.out[p.starter->0], y.last());
        }
    }
}

/// A shorter text decomposes into fewer characters.
proof fn lemma_shorter(s: Seq<char>, k: int)
    requires
        0 <= k < s.len(),
    ensures
        decompose_all(s.take(k)).len() + decompose(s[k]).len() <= decompose_all(s).len(),
        decompose_all(s.take(k)).len() < decompose_all(s).len(),
{
    assert(s == s.take(k) + s.skip(k));
    lemma_decompose_concat(s.take(k), s.skip(k));
    assert(s.skip(k) == seq![s[k]] + s.skip(k + 1));
    lemma_decompose_concat(seq![s[k]], s.skip(k + 1));
    lemma_decompose_one(s[k]);
    lemma_decompose(s[k]);
}

/// Where the last character decomposes into a starter first, the text before it
/// is in NFC if the whole is.
proof fn lemma_cut_starter(u: Seq<char>, x: char)
    requires
        nfc(u.push(x)) == u.push(x),
        ccc(decompose(x)[0]) == 0,
    ensures
        nfc(u) == u,
{
    let f = u.push(x);
    let a = nfd(u);
    let b = nfd(seq![x]);
    let p = pass(a);
    let w = p.out;
    assert(f == u + seq![x]);
    lemma_nfd_split(u, seq![x]);
    lemma_nfd(u);
    lemma_pass(a);
    lemma_nfd_len(u);
    lemma_nfd_len(w);
    lemma_decompose(x);
    if joined(p, b[0]) is None {
        lemma_pass_split(a, b);
        assert(f == w + pass(b).out);
        assert forall|j: int| 0 <= j < w.len() implies #[trigger] w[j] == u[j] by {
            assert(f[j] == w[j]);
        }
        if w.len() < u.len() {
            assert(w == u.take(w.len() as int));
            lemma_shorter(u, w.len() as int);
        }
        assert(w == u);
    } else {
        let i = p.starter->0;
        let first = seq![b[0]];
        assert(b == first + b.skip(1));
        assert(a + b == (a + first) + b.skip(1));
        assert(pass(a + first) == step(p, b[0])) by {
            assert((a + first).drop_last() == a);
        }
        lemma_extends(a + first, b.skip(1));
        lemma_join(w[i], b[0]);
        assert(i == w.len() - 1);
        assert(decompose(f[i]).len() > decompose(w[i]).len());
        assert(f.take(i) == w.take(i));
        if u.len() > i {
            assert(u.take(i) == w.take(i));
            assert(u[i] == f[i]);
            lemma_shorter(u, i);
            assert(w == w.take(i) + seq![w[i]]);
            lemma_decompose_concat(w.take(i), seq![w[i]]);
            lemma_decompose_one(w[i]);
        } else {
            assert(u == w.take(u.len() as int));
            lemma_shorter(w, u.len() as int);
        }
        assert(false);
    }
}

/// Where a mark ends up.
pub proof fn lemma_insert_place(t: Seq<char>, x: char) -> (k: int)
    requires
        ccc(x) != 0,
    ensures
        0 <= k <= t.len(),
        insert_mark(t, x) == t.take(k).push(x) + t.skip(k),
        forall|j: int| k <= j < t.len() ==> ccc(#[trigger] t[j]) > ccc(x),
        k > 0 ==> ccc(t[k - 1]) <= ccc(x),
    decreases t.len(),
{
    if t.len() > 0 && ccc(t.last()) > ccc(x) {
        let u = t.drop_last();
        let k = lemma_insert_place(u, x);
        assert(t.take(k) == u.take(k));
        assert(t.skip(k) == u.skip(k).push(t.last()));
        assert(insert_mark(t, x) == t.take(k).push(x) + t.skip(k));
        assert forall|j: int| k <= j < t.len() implies ccc(#[trigger] t[j]) > ccc(x) by {
            if j < u.len() {
                assert(t[j] == u[j]);
            }
        }
        k
    } else {
        assert(t.take(t.len() as int) == t);
        assert(insert_mark(t, x) == t.take(t.len() as int).push(x) + t.skip(t.len() as int));
        t.len() as int
    }
}

/// Further marks either all join, or one of them is written last.
proof fn lemma_marks_tail(x: Seq<char>, y: Seq<char>)
    requires
        pass(x).starter is Some ==> 0 <= pass(x).starter->0 < pass(x).out.len(),
        forall|j: int| 0 <= j < y.len() ==> ccc(#[trigger] y[j]) != 0,
    ensures
        pass(x + y).starter == pass(x).starter,
        pass(x + y).out.len() >= pass(x).out.len(),
        pass(x + y).out.len() > pass(x).out.len() ==> y.contains(pass(x + y).out.last()),
    decreases y.len(),
{
    if y.len() == 0 {
        assert(x + y == x);
    } else {
        let v = y.drop_last();
        assert((x + y).drop_last() == x + v);
        assert forall|j: int| 0 <= j < v.len() implies ccc(#[trigger] v[j]) != 0 by {
            assert(v[j] == y[j]);
        }
        lemma_marks_tail(x, v);
        let c = y[y.len() - 1];
        assert(ccc(c) != 0);
        let p = pass(x + v);
        if joined(p, c) is Some {
            if p.out.len() > pass(x).out.len() {
                let j = choose|j: int| 0 <= j < v.len() && v[j] == p.out.last();
                assert(y[j] == p.out.last());
            }
        }
    }
}

/// Marks that all join behind a mark `x` join as well where `x` is not there.
proof fn lemma_without_mark(a: Seq<char>, x: char, y: Seq<char>)
    requires
        pass(a).starter is Some ==> 0 <= pass(a).starter->0 < pass(a).out.len(),
        ccc(x) != 0,
        joined(pass(a), x) is None,
        pass(a).last <= ccc(x),
        forall|j: int| 0 <= j < y.len() ==> ccc(#[trigger] y[j]) > ccc(x),
        pass(a.push(x) + y).out.len() == pass(a).out.len() + 1,
    ensures
        pass(a.push(x) + y).out == pass(a + y).out.push(x),
        pass(a.push(x) + y).starter == pass(a).starter,
        pass(a.push(x) + y).last == ccc(x),
        pass(a + y).starter == pass(a).starter,
        pass(a + y).last == pass(a).last,
        pass(a + y).out.len() == pass(a).out.len(),
    decreases y.len(),
{
    let ax = a.push(x);
    assert(ax.drop_last() == a);
    if y.len() == 0 {
        assert(ax + y == ax);
        assert(a + y == a);
    } else {
        let v = y.drop_last();
        let c = y[y.len() - 1];
        assert(ccc(c) > ccc(x));
        assert((ax + y).drop_last() == ax + v);
        assert((a + y).drop_last() == a + v);
        assert forall|j: int| 0 <= j < v.len() implies ccc(#[trigger] v[j]) > ccc(x) by {
            assert(v[j] == y[j]);
        }
        lemma_marks_tail(ax, v);
        let p = pass(ax + v);
        assert(p.out.len() == pass(a).out.len() + 1);
        lemma_without_mark(a, x, v);
        let q = pass(a + v);
        let i = q.starter->0;
        assert(joined(p, c) is Some);
        assert(p.out[i] == q.out[i]);
        assert(joined(q, c) == joined(p, c));
        assert(pass(ax + y).out == pass(a + y).out.push(x));
    }
}

/// Where the last character is a mark, the text before it is in NFC if the whole
/// is.
proof fn lemma_cut_mark(u: Seq<char>, x: char)
    requires
        nfc(u.push(x)) == u.push(x),
        ccc(decompose(x)[0]) != 0,
    ensures
        nfc(u) == u,
{
    let f = u.push(x);
    let t = nfd(f);
    lemma_nfd(f);
    lemma_pass(t);
    lemma_starter(t);
    let r = pass(t);
    assert(f.last() == x);
    // The last character was written as it came.
    assert(is_reduced(x)) by {
        if r.starter is Some {
            assert(r.starter->0 != f.len() - 1);
            assert(is_reduced(r.out[f.len() - 1]));
        } else {
            assert(t == f);
            assert(is_reduced(t[f.len() - 1]));
        }
    }
    assert(decompose(x) == seq![x]);
    lemma_push_nfd(u, x);
    let v = nfd(u);
    lemma_nfd(u);
    let k = lemma_insert_place(v, x);
    let a = v.take(k);
    let b = v.skip(k);
    assert(v == a + b);
    let ax = a.push(x);
    assert(t == ax + b);
    assert forall|i: int| 0 <= i < a.len() implies is_reduced(#[trigger] a[i]) by {
        assert(a[i] == v[i]);
    }
    assert forall|i: int| 0 < i < a.len() implies #[trigger] in_order(a, i) by {
        assert(in_order(v, i));
    }
    assert forall|j: int| 0 <= j < b.len() implies ccc(#[trigger] b[j]) > ccc(x) by {
        assert(b[j] == v[k + j]);
    }
    lemma_pass(a);
    lemma_starter(a);
    let p = pass(a);
    assert(p.last <= ccc(x)) by {
        if a.len() > 0 {
            assert(a.last() == v[k - 1]);
        }
    }
    assert(ax.drop_last() == a);
    let q = pass(ax);
    assert(q == step(p, x));
    lemma_marks_tail(ax, b);
    // None of the later marks was written, as each differs from the last one.
    assert(r.out.len() == q.out.len()) by {
        if b.contains(x) {
            let j = choose|j: int| 0 <= j < b.len() && b[j] == x;
            assert(ccc(b[j]) > ccc(x));
        }
    }
    assert(joined(p, x) is None) by {
        if joined(p, x) is Some {
            lemma_extends(ax, b);
            let i = p.starter->0;
            assert(r.starter == p.starter);
            assert(i != f.len() - 1);
            assert(r.out[f.len() - 1] == q.out[f.len() - 1]);
            assert(p.out[f.len() - 1] == x);
        }
    }
    lemma_without_mark(a, x, b);
    assert(pass(v).out.push(x) == f);
    assert(pass(v).out == f.drop_last());
    assert(u == f.drop_last());
}

/// What is left of a text in NFC after cutting characters off its end is in NFC.
pub proof fn law_nfc_prefix(s: Seq<char>, k: int)
    requires
        nfc(s) == s,
        0 <= k <= s.len(),
    ensures
        nfc(s.take(k)) == s.take(k),
    decreases s.len() - k,
{
    if k == s.len() {
        assert(s.take(k) == s);
    } else {
        law_nfc_prefix(s, k + 1);
        let u = s.take(k);
        let x = s[k];
        assert(s.take(k + 1) == u.push(x));
        if ccc(decompose(x)[0]) == 0 {
            lemma_cut_starter(u, x);
        } else {
            lemma_cut_mark(u, x);
        }
    }
}

} // verus!
