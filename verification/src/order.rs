//! Lexicographic order of texts and byte strings, and a stable sort.

use vstd::prelude::*;

use crate::text::{chars_of, same_bytes};
use crate::walker::parts_of;

verus! {

// ---------------------------------------------------------------------------
// Lexicographic order
// ---------------------------------------------------------------------------
/// Is `a` equal to `b` or before it, compared number by number?
pub open spec fn lex_leq(a: Seq<int>, b: Seq<int>) -> bool
    decreases a.len(),
{
    if a.len() == 0 {
        true
    } else if b.len() == 0 {
        false
    } else if a[0] == b[0] {
        lex_leq(a.skip(1), b.skip(1))
    } else {
        a[0] < b[0]
    }
}

pub proof fn lemma_lex_total(a: Seq<int>, b: Seq<int>)
    ensures
        lex_leq(a, b) || lex_leq(b, a),
    decreases a.len(),
{
    if a.len() > 0 && b.len() > 0 && a[0] == b[0] {
        lemma_lex_total(a.skip(1), b.skip(1));
    }
}

pub proof fn lemma_lex_transitive(a: Seq<int>, b: Seq<int>, c: Seq<int>)
    requires
        lex_leq(a, b),
        lex_leq(b, c),
    ensures
        lex_leq(a, c),
    decreases a.len(),
{
    if a.len() > 0 && b.len() > 0 && c.len() > 0 && a[0] == b[0] && b[0] == c[0] {
        lemma_lex_transitive(a.skip(1), b.skip(1), c.skip(1));
    }
}

pub proof fn lemma_lex_antisymmetric(a: Seq<int>, b: Seq<int>)
    requires
        lex_leq(a, b),
        lex_leq(b, a),
    ensures
        a == b,
    decreases a.len(),
{
    if a.len() > 0 {
        lemma_lex_antisymmetric(a.skip(1), b.skip(1));
        assert(a == seq![a[0]] + a.skip(1));
        assert(b == seq![b[0]] + b.skip(1));
    } else {
        assert(a == b);
    }
}

/// The code points of a text.
pub open spec fn codes(s: Seq<char>) -> Seq<int> {
    s.map_values(|c: char| c as int)
}

/// The numbers in a byte string.
pub open spec fn numbers(s: Seq<u8>) -> Seq<int> {
    s.map_values(|b: u8| b as int)
}

/// The order of texts: by code points.
pub open spec fn text_leq(a: Seq<char>, b: Seq<char>) -> bool {
    lex_leq(codes(a), codes(b))
}

/// The order of byte strings.
pub open spec fn bytes_leq(a: Seq<u8>, b: Seq<u8>) -> bool {
    lex_leq(numbers(a), numbers(b))
}

pub proof fn lemma_text_antisymmetric(a: Seq<char>, b: Seq<char>)
    requires
        text_leq(a, b),
        text_leq(b, a),
    ensures
        a == b,
{
    lemma_lex_antisymmetric(codes(a), codes(b));
    assert(codes(a).len() == a.len() && codes(b).len() == b.len());
    assert forall|i: int| 0 <= i < a.len() implies a[i] == b[i] by {
        assert(codes(a)[i] == a[i] as int);
        assert(codes(b)[i] == b[i] as int);
        lemma_same_code(a[i], b[i]);
    }
    assert(a =~= b);
}

proof fn lemma_same_code(a: char, b: char)
    requires
        a as int == b as int,
    ensures
        a == b,
{
}

pub proof fn lemma_bytes_antisymmetric(a: Seq<u8>, b: Seq<u8>)
    requires
        bytes_leq(a, b),
        bytes_leq(b, a),
    ensures
        a == b,
{
    lemma_lex_antisymmetric(numbers(a), numbers(b));
    assert(numbers(a).len() == a.len() && numbers(b).len() == b.len());
    assert forall|i: int| 0 <= i < a.len() implies a[i] == b[i] by {
        assert(numbers(a)[i] == a[i] as int);
        assert(numbers(b)[i] == b[i] as int);
    }
    assert(a =~= b);
}

/// The order of lists of byte strings.
pub open spec fn parts_leq(a: Seq<Seq<u8>>, b: Seq<Seq<u8>>) -> bool
    decreases a.len(),
{
    if a.len() == 0 {
        true
    } else if b.len() == 0 {
        false
    } else if a[0] == b[0] {
        parts_leq(a.skip(1), b.skip(1))
    } else {
        bytes_leq(a[0], b[0])
    }
}

pub proof fn lemma_parts_total(a: Seq<Seq<u8>>, b: Seq<Seq<u8>>)
    ensures
        parts_leq(a, b) || parts_leq(b, a),
    decreases a.len(),
{
    if a.len() > 0 && b.len() > 0 {
        if a[0] == b[0] {
            lemma_parts_total(a.skip(1), b.skip(1));
        } else {
            lemma_lex_total(numbers(a[0]), numbers(b[0]));
        }
    }
}

pub proof fn lemma_parts_transitive(a: Seq<Seq<u8>>, b: Seq<Seq<u8>>, c: Seq<Seq<u8>>)
    requires
        parts_leq(a, b),
        parts_leq(b, c),
    ensures
        parts_leq(a, c),
    decreases a.len(),
{
    if a.len() > 0 && b.len() > 0 && c.len() > 0 {
        if a[0] == b[0] && b[0] == c[0] {
            lemma_parts_transitive(a.skip(1), b.skip(1), c.skip(1));
        } else if a[0] != b[0] && b[0] != c[0] {
            lemma_lex_transitive(numbers(a[0]), numbers(b[0]), numbers(c[0]));
            if a[0] == c[0] {
                lemma_bytes_antisymmetric(a[0], b[0]);
            }
        }
    }
}

pub proof fn lemma_parts_antisymmetric(a: Seq<Seq<u8>>, b: Seq<Seq<u8>>)
    requires
        parts_leq(a, b),
        parts_leq(b, a),
    ensures
        a == b,
    decreases a.len(),
{
    if a.len() > 0 && b.len() > 0 {
        if a[0] != b[0] {
            lemma_bytes_antisymmetric(a[0], b[0]);
        }
        lemma_parts_antisymmetric(a.skip(1), b.skip(1));
        assert(a == seq![a[0]] + a.skip(1));
        assert(b == seq![b[0]] + b.skip(1));
    } else {
        assert(a == b);
    }
}

/// Is `a` equal to `b` or before it?
pub fn is_parts_leq(a: &Vec<Vec<u8>>, b: &Vec<Vec<u8>>) -> (r: bool)
    ensures
        r == parts_leq(parts_of(a@), parts_of(b@)),
{
    let ghost x = parts_of(a@);
    let ghost y = parts_of(b@);
    let mut i: usize = 0;
    assert(x.skip(0) == x && y.skip(0) == y);
    loop
        invariant
            i <= a@.len(),
            i <= b@.len(),
            x == parts_of(a@),
            y == parts_of(b@),
            parts_leq(x, y) == parts_leq(x.skip(i as int), y.skip(i as int)),
        decreases a@.len() - i,
    {
        if i >= a.len() {
            return true;
        }
        if i >= b.len() {
            return false;
        }
        assert(x.skip(i as int)[0] == a@[i as int]@);
        assert(y.skip(i as int)[0] == b@[i as int]@);
        if !same_bytes(&a[i], &b[i]) {
            return is_bytes_leq(&a[i], &b[i]);
        }
        assert(x.skip(i as int).skip(1) == x.skip(i + 1));
        assert(y.skip(i as int).skip(1) == y.skip(i + 1));
        i = i + 1;
    }
}

/// Is `a` equal to `b` or before it?
pub fn is_text_leq(a: &str, b: &str) -> (r: bool)
    ensures
        r == text_leq(a@, b@),
{
    let x: Vec<char> = chars_of(a);
    let y: Vec<char> = chars_of(b);
    let mut i: usize = 0;
    assert(codes(a@).skip(0) == codes(a@));
    assert(codes(b@).skip(0) == codes(b@));
    loop
        invariant
            x@ == a@,
            y@ == b@,
            i <= x@.len(),
            i <= y@.len(),
            text_leq(a@, b@) == lex_leq(codes(a@).skip(i as int), codes(b@).skip(i as int)),
        decreases x@.len() - i,
    {
        if i == x.len() {
            return true;
        }
        if i == y.len() {
            return false;
        }
        let c: char = x[i];
        let d: char = y[i];
        assert(codes(a@).skip(i as int)[0] == c as int);
        assert(codes(b@).skip(i as int)[0] == d as int);
        assert(codes(a@).skip(i as int).skip(1) == codes(a@).skip(i + 1));
        assert(codes(b@).skip(i as int).skip(1) == codes(b@).skip(i + 1));
        if c != d {
            return c < d;
        }
        i = i + 1;
    }
}

/// Is `a` equal to `b` or before it?
pub fn is_bytes_leq(a: &[u8], b: &[u8]) -> (r: bool)
    ensures
        r == bytes_leq(a@, b@),
{
    let mut i: usize = 0;
    assert(numbers(a@).skip(0) == numbers(a@));
    assert(numbers(b@).skip(0) == numbers(b@));
    loop
        invariant
            i <= a@.len(),
            i <= b@.len(),
            bytes_leq(a@, b@) == lex_leq(numbers(a@).skip(i as int), numbers(b@).skip(i as int)),
        decreases a@.len() - i,
    {
        if i == a.len() {
            return true;
        }
        if i == b.len() {
            return false;
        }
        let c: u8 = a[i];
        let d: u8 = b[i];
        assert(numbers(a@).skip(i as int)[0] == c as int);
        assert(numbers(b@).skip(i as int)[0] == d as int);
        assert(numbers(a@).skip(i as int).skip(1) == numbers(a@).skip(i + 1));
        assert(numbers(b@).skip(i as int).skip(1) == numbers(b@).skip(i + 1));
        if c != d {
            return c < d;
        }
        i = i + 1;
    }
}

// ---------------------------------------------------------------------------
// Stable sorting
// ---------------------------------------------------------------------------
/// Items with a total order, in which different items may rank the same.
pub trait Ranked: Sized {
    /// Does this item rank the same as `other` or before it?
    spec fn leq(self, other: Self) -> bool;

    proof fn lemma_total(a: Self, b: Self)
        ensures
            a.leq(b) || b.leq(a),
    ;

    proof fn lemma_transitive(a: Self, b: Self, c: Self)
        requires
            a.leq(b),
            b.leq(c),
        ensures
            a.leq(c),
    ;
}

/// Items whose order can be decided.
pub trait Sortable: Ranked {
    fn is_leq(&self, other: &Self) -> (r: bool)
        ensures
            r == self.leq(*other),
    ;
}

/// `s` with `x` put in, behind all items that rank the same or before it at the
/// end of `s`.
pub open spec fn put<T: Ranked>(s: Seq<T>, x: T) -> Seq<T>
    decreases s.len(),
{
    if s.len() > 0 && !s.last().leq(x) {
        put(s.drop_last(), x).push(s.last())
    } else {
        s.push(x)
    }
}

/// The stable arrangement of `s`: its items in ascending order, those that rank
/// the same in the order in which they came.
pub open spec fn arranged<T: Ranked>(s: Seq<T>) -> Seq<T>
    decreases s.len(),
{
    if s.len() == 0 {
        s
    } else {
        put(arranged(s.drop_last()), s.last())
    }
}

/// Are the items of `s` in ascending order?
pub open spec fn is_ascending<T: Ranked>(s: Seq<T>) -> bool {
    forall|i: int, j: int| 0 <= i < j < s.len() ==> (#[trigger] s[i]).leq(#[trigger] s[j])
}

pub proof fn lemma_put<T: Ranked>(s: Seq<T>, x: T)
    requires
        is_ascending(s),
    ensures
        is_ascending(put(s, x)),
        put(s, x).to_multiset() == s.to_multiset().insert(x),
        put(s, x).len() == s.len() + 1,
        forall|y: T|
            x.leq(y) && (forall|i: int| 0 <= i < s.len() ==> (#[trigger] s[i]).leq(y)) ==> (forall|
                i: int,
            |
                0 <= i < put(s, x).len() ==> (#[trigger] put(s, x)[i]).leq(y)),
    decreases s.len(),
{
    broadcast use vstd::seq_lib::group_to_multiset_ensures;

    if s.len() > 0 && !s.last().leq(x) {
        let u = s.drop_last();
        let l = s.last();
        lemma_put(u, x);
        T::lemma_total(l, x);
        assert(s == u.push(l));
        let r = put(u, x);
        assert(put(s, x) == r.push(l));
        assert(r.push(l).to_multiset() == s.to_multiset().insert(x));
        assert forall|i: int| 0 <= i < u.len() implies (#[trigger] u[i]).leq(l) by {
            assert(u[i] == s[i]);
        }
    } else {
        assert(put(s, x) == s.push(x));
        assert forall|i: int| 0 <= i < s.len() implies (#[trigger] s[i]).leq(x) by {
            if i < s.len() - 1 {
                T::lemma_transitive(s[i], s.last(), x);
            }
        }
    }
}

/// The arrangement holds the same items, in ascending order.
pub proof fn law_arranged<T: Ranked>(s: Seq<T>)
    ensures
        is_ascending(arranged(s)),
        arranged(s).to_multiset() == s.to_multiset(),
        arranged(s).len() == s.len(),
    decreases s.len(),
{
    broadcast use vstd::seq_lib::group_to_multiset_ensures;

    if s.len() > 0 {
        law_arranged(s.drop_last());
        lemma_put(arranged(s.drop_last()), s.last());
        assert(s == s.drop_last().push(s.last()));
    }
}

/// Does `f` carry the order of the one kind of items to that of the other?
pub open spec fn carries_order<T: Ranked, V: Ranked>(f: spec_fn(T) -> V) -> bool {
    forall|a: T, b: T| #[trigger] a.leq(b) == f(a).leq(f(b))
}

proof fn lemma_put_map<T: Ranked, V: Ranked>(s: Seq<T>, x: T, f: spec_fn(T) -> V)
    requires
        carries_order(f),
    ensures
        put(s, x).map_values(f) == put(s.map_values(f), f(x)),
    decreases s.len(),
{
    let t = s.map_values(f);
    if s.len() > 0 && !s.last().leq(x) {
        lemma_put_map(s.drop_last(), x, f);
        assert(t.drop_last() == s.drop_last().map_values(f));
        assert(put(s, x).map_values(f) == put(s.drop_last(), x).map_values(f).push(f(s.last())));
    } else {
        assert(s.len() > 0 ==> s.last().leq(x));
        assert(s.push(x).map_values(f) == t.push(f(x)));
    }
}

/// Items may be sorted by what they are viewed as.
pub proof fn lemma_arranged_map<T: Ranked, V: Ranked>(s: Seq<T>, f: spec_fn(T) -> V)
    requires
        carries_order(f),
    ensures
        arranged(s).map_values(f) == arranged(s.map_values(f)),
    decreases s.len(),
{
    if s.len() == 0 {
        assert(s.map_values(f).len() == 0);
        assert(arranged(s).map_values(f) == arranged(s.map_values(f)));
    } else {
        lemma_arranged_map(s.drop_last(), f);
        assert(s.map_values(f).drop_last() == s.drop_last().map_values(f));
        lemma_put_map(arranged(s.drop_last()), s.last(), f);
    }
}

/// The merger of two ascending sequences, the items of `a` before those of `b`
/// that rank the same.
spec fn merged<T: Ranked>(a: Seq<T>, b: Seq<T>) -> Seq<T>
    decreases a.len() + b.len(),
{
    if a.len() == 0 {
        b
    } else if b.len() == 0 {
        a
    } else if a.last().leq(b.last()) {
        merged(a, b.drop_last()).push(b.last())
    } else {
        merged(a.drop_last(), b).push(a.last())
    }
}

/// Putting an item into the second part puts it into the merger.
proof fn lemma_merged_put<T: Ranked>(a: Seq<T>, b: Seq<T>, x: T)
    ensures
        merged(a, put(b, x)) == put(merged(a, b), x),
    decreases a.len() + b.len(),
{
    if a.len() == 0 {
    } else if b.len() == 0 {
        assert(put(b, x) == seq![x]);
        assert(seq![x].drop_last() == b);
        if !a.last().leq(x) {
            lemma_merged_put(a.drop_last(), b, x);
            if a.len() == 1 {
                assert(a.drop_last() == b);
            }
        }
    } else {
        let al = a.last();
        let bl = b.last();
        T::lemma_total(al, bl);
        T::lemma_total(bl, x);
        T::lemma_total(al, x);
        if bl.leq(x) {
            let bx = b.push(x);
            assert(put(b, x) == bx);
            assert(bx.drop_last() == b);
            if al.leq(x) {
                assert(merged(a, bx) == merged(a, b).push(x));
                assert(merged(a, b).last() == al || merged(a, b).last() == bl);
                assert(put(merged(a, b), x) == merged(a, b).push(x));
            } else {
                if al.leq(bl) {
                    T::lemma_transitive(al, bl, x);
                }
                lemma_merged_put(a.drop_last(), b, x);
                let m = merged(a.drop_last(), b);
                assert(merged(a, b) == m.push(al));
                assert(m.push(al).drop_last() == m);
            }
        } else {
            let c = put(b.drop_last(), x);
            assert(put(b, x) == c.push(bl));
            assert(c.push(bl).drop_last() == c);
            if al.leq(bl) {
                lemma_merged_put(a, b.drop_last(), x);
                let m = merged(a, b.drop_last());
                assert(m.push(bl).drop_last() == m);
            } else {
                if al.leq(x) {
                    T::lemma_transitive(bl, al, x);
                }
                lemma_merged_put(a.drop_last(), b, x);
                let m = merged(a.drop_last(), b);
                assert(m.push(al).drop_last() == m);
            }
        }
    }
}

/// The arrangement of two parts is the merger of their arrangements.
proof fn lemma_arranged_concat<T: Ranked>(a: Seq<T>, b: Seq<T>)
    ensures
        arranged(a + b) == merged(arranged(a), arranged(b)),
    decreases b.len(),
{
    if b.len() == 0 {
        assert(a + b == a);
        if arranged(a).len() == 0 {
            assert(arranged(a) == b);
        }
    } else {
        assert((a + b).drop_last() == a + b.drop_last());
        lemma_arranged_concat(a, b.drop_last());
        lemma_merged_put(arranged(a), arranged(b.drop_last()), b.last());
    }
}

/// Merges two sequences.
fn merge<T: Sortable>(a: Vec<T>, b: Vec<T>) -> (r: Vec<T>)
    ensures
        r@ == merged(a@, b@),
{
    let mut a: Vec<T> = a;
    let mut b: Vec<T> = b;
    let ghost whole = merged(a@, b@);
    let mut tail: Vec<T> = Vec::new();
    assert(whole == merged(a@, b@) + tail@.reverse());
    while a.len() > 0 && b.len() > 0
        invariant
            whole == merged(a@, b@) + tail@.reverse(),
        decreases a@.len() + b@.len(),
    {
        let ghost a0 = a@;
        let ghost b0 = b@;
        let ghost t0 = tail@;
        if a[a.len() - 1].is_leq(&b[b.len() - 1]) {
            if let Some(x) = b.pop() {
                tail.push(x);
                assert(b@ == b0.drop_last());
                assert(tail@.reverse() == seq![x] + t0.reverse());
                assert(merged(a0, b0) == merged(a@, b@).push(x));
            }
        } else {
            if let Some(x) = a.pop() {
                tail.push(x);
                assert(a@ == a0.drop_last());
                assert(tail@.reverse() == seq![x] + t0.reverse());
                assert(merged(a0, b0) == merged(a@, b@).push(x));
            }
        }
        assert(whole == merged(a@, b@) + tail@.reverse());
    }
    let mut out: Vec<T> = if a.len() == 0 {
        b
    } else {
        a
    };
    assert(whole == out@ + tail@.reverse());
    while tail.len() > 0
        invariant
            whole == out@ + tail@.reverse(),
        decreases tail@.len(),
    {
        let ghost t0 = tail@;
        let ghost o0 = out@;
        if let Some(x) = tail.pop() {
            out.push(x);
            assert(t0.reverse() == seq![x] + tail@.reverse());
            assert(o0 + t0.reverse() == out@ + tail@.reverse());
        }
    }
    assert(out@ + tail@.reverse() == out@);
    out
}

/// Sorts items in ascending order, keeping those that rank the same in the order
/// in which they came.
pub fn sort<T: Sortable>(items: Vec<T>) -> (r: Vec<T>)
    ensures
        r@ == arranged(items@),
    decreases items@.len(),
{
    let n: usize = items.len();
    if n <= 1 {
        proof {
            reveal_with_fuel(arranged, 2);
            assert(items@.len() == 1 ==> items@.drop_last() == Seq::<T>::empty());
            assert(items@.len() == 1 ==> arranged(items@) == items@);
        }
        return items;
    }
    let ghost all = items@;
    let mut left: Vec<T> = items;
    let right: Vec<T> = left.split_off(n / 2);
    assert(all == left@ + right@);
    proof {
        lemma_arranged_concat(left@, right@);
    }
    merge(sort(left), sort(right))
}

} // verus!
