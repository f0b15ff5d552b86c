//! What normalization satisfies: both forms are stable, each gives the same
//! result on the other, and NFC goes well with cutting a name at its ends and
//! with putting ASCII characters in.

use vstd::prelude::*;

use crate::unicode::{
    decompose, decompose_all, insert_mark, is_leading, is_open_syllable, is_trailing, is_vowel,
    jamo, join, joined, lemma_reduction, nfc, nfd, pass, reduction, reorder, start, step, Pass,
};
use crate::unicode_compose::{ccc, lemma_composite, lemma_low_is_starter};
use crate::unicode_decomp::{has_mapping, lemma_mapping, mapping};
use crate::unicode_rows::{
    is_jamo, is_syllable, L_BASE, N_COUNT, S_BASE, S_COUNT, T_BASE, T_COUNT, V_BASE,
};

verus! {

// ---------------------------------------------------------------------------
// Decomposition
// ---------------------------------------------------------------------------
/// Does `c` decompose no further?
pub open spec fn is_reduced(c: char) -> bool {
    !is_syllable(c) && !has_mapping(c)
}

/// Do none of the characters of `s` decompose further?
pub open spec fn all_reduced(s: Seq<char>) -> bool {
    forall|i: int| 0 <= i < s.len() ==> is_reduced(#[trigger] s[i])
}

proof fn lemma_jamo_is_reduced(c: char)
    requires
        is_jamo(c),
    ensures
        is_reduced(c),
{
    if has_mapping(c) {
        lemma_mapping(c);
    }
}

/// The jamo of a syllable lie in the block of jamo.
pub proof fn lemma_jamo(c: char)
    requires
        is_syllable(c),
    ensures
        2 <= jamo(c).len() <= 3,
        forall|i: int| 0 <= i < jamo(c).len() ==> is_jamo(#[trigger] jamo(c)[i]),
{
    let s = c as int - S_BASE;
    assert(0 <= s / N_COUNT as int <= 18);
    assert(0 <= (s % N_COUNT as int) / T_COUNT as int <= 20);
    assert(0 <= s % T_COUNT as int <= 27);
}

/// A decomposition is not empty and decomposes no further.
pub proof fn lemma_decompose(c: char)
    ensures
        decompose(c).len() > 0,
        all_reduced(decompose(c)),
    decreases reduction(c),
{
    if is_syllable(c) {
        lemma_jamo(c);
        assert forall|i: int| 0 <= i < jamo(c).len() implies is_reduced(#[trigger] jamo(c)[i]) by {
            lemma_jamo_is_reduced(jamo(c)[i]);
        }
    } else if has_mapping(c) {
        lemma_reduction(c);
        lemma_mapping(c);
        lemma_decompose(mapping(c).0);
    }
}

proof fn lemma_decompose_reduced(s: Seq<char>)
    requires
        all_reduced(s),
    ensures
        decompose_all(s) == s,
    decreases s.len(),
{
    if s.len() > 0 {
        lemma_decompose_reduced(s.drop_last());
        assert(is_reduced(s[s.len() - 1]));
        assert(s == s.drop_last() + seq![s.last()]);
    }
}

pub proof fn lemma_decompose_all(s: Seq<char>)
    ensures
        all_reduced(decompose_all(s)),
        decompose_all(s).len() >= s.len(),
    decreases s.len(),
{
    if s.len() > 0 {
        lemma_decompose_all(s.drop_last());
        lemma_decompose(s.last());
    }
}

pub proof fn lemma_decompose_concat(a: Seq<char>, b: Seq<char>)
    ensures
        decompose_all(a + b) == decompose_all(a) + decompose_all(b),
    decreases b.len(),
{
    if b.len() == 0 {
        assert(a + b == a);
    } else {
        assert((a + b).drop_last() == a + b.drop_last());
        lemma_decompose_concat(a, b.drop_last());
        assert(decompose_all(a + b) == decompose_all(a) + decompose_all(b));
    }
}

pub proof fn lemma_decompose_one(c: char)
    ensures
        decompose_all(seq![c]) == decompose(c),
{
    assert(seq![c].drop_last() == Seq::<char>::empty());
    reveal_with_fuel(decompose_all, 2);
    assert(decompose_all(seq![c]) == decompose(c));
}

/// What a pair joins into decomposes into what the first decomposes into, and
/// the second.
pub proof fn lemma_join(a: char, b: char)
    requires
        join(a, b) is Some,
    ensures
        decompose(join(a, b)->0) == decompose(a).push(b),
        b >= '\u{0300}',
        a >= '<',
{
    let c = join(a, b)->0;
    if is_leading(a) && is_vowel(b) {
        lemma_jamo_is_reduced(a);
        let l = a as int - L_BASE;
        let v = b as int - V_BASE;
        let s = l * N_COUNT + v * T_COUNT;
        assert(s / N_COUNT as int == l && s % N_COUNT as int == v * T_COUNT);
        assert(s % T_COUNT as int == 0);
        assert(is_syllable(c));
        assert(decompose(c) == seq![a, b]);
    } else if is_open_syllable(a) && is_trailing(b) {
        let s = a as int - S_BASE;
        let t = b as int - T_BASE;
        assert(s <= S_COUNT - T_COUNT);
        assert((s + t) % T_COUNT as int == t);
        assert((s + t) / N_COUNT as int == s / N_COUNT as int);
        assert(((s + t) % N_COUNT as int) / T_COUNT as int == (s % N_COUNT as int)
            / T_COUNT as int);
        assert(is_syllable(c));
        assert(decompose(c) == decompose(a).push(b));
    } else {
        lemma_composite(a, b);
        lemma_mapping(c);
    }
}

// ---------------------------------------------------------------------------
// Canonical ordering
// ---------------------------------------------------------------------------
/// Does the `i`-th character of `s` stand in canonical order behind the one before?
pub open spec fn in_order(s: Seq<char>, i: int) -> bool {
    ccc(s[i]) == 0 || ccc(s[i - 1]) <= ccc(s[i])
}

/// Is `s` in canonical order?
pub open spec fn is_ordered(s: Seq<char>) -> bool {
    forall|i: int| 0 < i < s.len() ==> #[trigger] in_order(s, i)
}

/// The characters of `s` put into `t` one after the other.
spec fn insert_all(t: Seq<char>, s: Seq<char>) -> Seq<char>
    decreases s.len(),
{
    if s.len() == 0 {
        t
    } else {
        insert_mark(insert_all(t, s.drop_last()), s.last())
    }
}

proof fn lemma_reorder_concat(a: Seq<char>, b: Seq<char>)
    ensures
        reorder(a + b) == insert_all(reorder(a), b),
    decreases b.len(),
{
    if b.len() == 0 {
        assert(a + b == a);
    } else {
        assert((a + b).drop_last() == a + b.drop_last());
        lemma_reorder_concat(a, b.drop_last());
    }
}

proof fn lemma_insert_concat(t: Seq<char>, a: Seq<char>, b: Seq<char>)
    ensures
        insert_all(t, a + b) == insert_all(insert_all(t, a), b),
    decreases b.len(),
{
    if b.len() == 0 {
        assert(a + b == a);
    } else {
        assert((a + b).drop_last() == a + b.drop_last());
        lemma_insert_concat(t, a, b.drop_last());
    }
}

proof fn lemma_insert_one(t: Seq<char>, c: char)
    ensures
        insert_all(t, seq![c]) == insert_mark(t, c),
{
    assert(seq![c].drop_last() == Seq::<char>::empty());
    reveal_with_fuel(insert_all, 2);
}

/// Two marks of different classes may come in either order.
proof fn lemma_insert_commutes(t: Seq<char>, a: char, b: char)
    requires
        ccc(a) != 0,
        ccc(b) != 0,
        ccc(a) != ccc(b),
    ensures
        insert_mark(insert_mark(t, a), b) == insert_mark(insert_mark(t, b), a),
    decreases t.len(),
{
    assert(t.push(a).drop_last() == t);
    assert(t.push(b).drop_last() == t);
    if t.len() > 0 {
        let u = t.drop_last();
        lemma_insert_commutes(u, a, b);
        assert(insert_mark(u, a).push(t.last()).drop_last() == insert_mark(u, a));
        assert(insert_mark(u, b).push(t.last()).drop_last() == insert_mark(u, b));
    }
}

/// A mark may come before or after marks of other classes.
proof fn lemma_insert_all_commutes(t: Seq<char>, b: char, ms: Seq<char>)
    requires
        ccc(b) != 0,
        forall|i: int|
            0 <= i < ms.len() ==> ccc(#[trigger] ms[i]) != 0 && ccc(ms[i]) != ccc(b),
    ensures
        insert_all(insert_mark(t, b), ms) == insert_mark(insert_all(t, ms), b),
    decreases ms.len(),
{
    if ms.len() > 0 {
        lemma_insert_all_commutes(t, b, ms.drop_last());
        assert(ccc(ms[ms.len() - 1]) != 0);
        lemma_insert_commutes(insert_all(t, ms.drop_last()), ms.last(), b);
    }
}

/// Putting a character in keeps what holds of all characters.
proof fn lemma_insert_all_chars(t: Seq<char>, c: char, p: spec_fn(char) -> bool)
    requires
        p(c),
        forall|i: int| 0 <= i < t.len() ==> p(#[trigger] t[i]),
    ensures
        forall|i: int| 0 <= i < insert_mark(t, c).len() ==> p(#[trigger] insert_mark(t, c)[i]),
    decreases t.len(),
{
    if ccc(c) != 0 && t.len() > 0 && ccc(t.last()) > ccc(c) {
        let u = t.drop_last();
        lemma_insert_all_chars(u, c, p);
        assert(p(t[t.len() - 1]));
        let r = insert_mark(u, c);
        assert forall|i: int| 0 <= i < r.push(t.last()).len() implies p(
            #[trigger] r.push(t.last())[i],
        ) by {
            if i < r.len() {
                assert(p(r[i]));
            }
        }
    }
}

pub proof fn lemma_reorder_all_chars(s: Seq<char>, p: spec_fn(char) -> bool)
    requires
        forall|i: int| 0 <= i < s.len() ==> p(#[trigger] s[i]),
    ensures
        forall|i: int| 0 <= i < reorder(s).len() ==> p(#[trigger] reorder(s)[i]),
    decreases s.len(),
{
    if s.len() > 0 {
        lemma_reorder_all_chars(s.drop_last(), p);
        assert(p(s[s.len() - 1]));
        lemma_insert_all_chars(reorder(s.drop_last()), s.last(), p);
    }
}

pub proof fn lemma_insert_len(t: Seq<char>, c: char)
    ensures
        insert_mark(t, c).len() == t.len() + 1,
    decreases t.len(),
{
    if t.len() > 0 {
        lemma_insert_len(t.drop_last(), c);
    }
}

pub proof fn lemma_reorder_len(s: Seq<char>)
    ensures
        reorder(s).len() == s.len(),
    decreases s.len(),
{
    if s.len() > 0 {
        lemma_reorder_len(s.drop_last());
        lemma_insert_len(reorder(s.drop_last()), s.last());
    }
}

proof fn lemma_insert_keeps_order(t: Seq<char>, c: char)
    requires
        is_ordered(t),
    ensures
        is_ordered(insert_mark(t, c)),
        insert_mark(t, c).last() == c || (t.len() > 0 && insert_mark(t, c).last() == t.last()),
    decreases t.len(),
{
    if ccc(c) != 0 && t.len() > 0 && ccc(t.last()) > ccc(c) {
        let u = t.drop_last();
        assert forall|i: int| 0 < i < u.len() implies #[trigger] in_order(u, i) by {
            assert(in_order(t, i));
        }
        lemma_insert_keeps_order(u, c);
        lemma_insert_len(u, c);
        let r = insert_mark(u, c);
        assert forall|i: int| 0 < i < r.push(t.last()).len() implies #[trigger] in_order(
            r.push(t.last()),
            i,
        ) by {
            if i < r.len() {
                assert(in_order(r, i));
            } else if u.len() > 0 {
                assert(in_order(t, t.len() - 1));
            }
        }
    } else {
        assert forall|i: int| 0 < i < t.push(c).len() implies #[trigger] in_order(t.push(c), i) by {
            if i < t.len() {
                assert(in_order(t, i));
            }
        }
    }
}

proof fn lemma_reorder_is_ordered(s: Seq<char>)
    ensures
        is_ordered(reorder(s)),
    decreases s.len(),
{
    if s.len() > 0 {
        lemma_reorder_is_ordered(s.drop_last());
        lemma_insert_keeps_order(reorder(s.drop_last()), s.last());
    }
}

/// A prefix of an ordered text is ordered, and the next character goes to its end.
pub proof fn lemma_ordered_prefix(s: Seq<char>)
    requires
        is_ordered(s),
        s.len() > 0,
    ensures
        is_ordered(s.drop_last()),
        insert_mark(s.drop_last(), s.last()) == s,
{
    let u = s.drop_last();
    assert forall|i: int| 0 < i < u.len() implies #[trigger] in_order(u, i) by {
        assert(in_order(s, i));
    }
    if u.len() > 0 {
        assert(in_order(s, s.len() - 1));
    }
    assert(u.push(s.last()) == s);
}

pub proof fn lemma_reorder_ordered(s: Seq<char>)
    requires
        is_ordered(s),
    ensures
        reorder(s) == s,
    decreases s.len(),
{
    if s.len() > 0 {
        lemma_ordered_prefix(s);
        lemma_reorder_ordered(s.drop_last());
    }
}

/// NFD is fully decomposed and in canonical order.
pub proof fn lemma_nfd(s: Seq<char>)
    ensures
        all_reduced(nfd(s)),
        is_ordered(nfd(s)),
{
    lemma_decompose_all(s);
    lemma_reorder_all_chars(decompose_all(s), |c: char| is_reduced(c));
    assert forall|i: int| 0 <= i < nfd(s).len() implies is_reduced(#[trigger] nfd(s)[i]) by {
        assert((|c: char| is_reduced(c))(nfd(s)[i]));
    }
    lemma_reorder_is_ordered(decompose_all(s));
}

/// A fully decomposed text in canonical order is its own NFD.
pub proof fn lemma_is_own_nfd(s: Seq<char>)
    requires
        all_reduced(s),
        is_ordered(s),
    ensures
        nfd(s) == s,
{
    lemma_decompose_reduced(s);
    lemma_reorder_ordered(s);
}

/// NFD is idempotent.
pub proof fn law_nfd_idempotent(s: Seq<char>)
    ensures
        nfd(nfd(s)) == nfd(s),
{
    lemma_nfd(s);
    lemma_is_own_nfd(nfd(s));
}

/// The NFC of the NFD is the NFC.
pub proof fn law_nfc_of_nfd(s: Seq<char>)
    ensures
        nfc(nfd(s)) == nfc(s),
{
    law_nfd_idempotent(s);
}

// ---------------------------------------------------------------------------
// Composition
// ---------------------------------------------------------------------------
/// What a composition pass over `s` keeps: what it has written decomposes into
/// `s`, and the last starter is followed by marks alone, of classes up to the
/// last one.
pub open spec fn keeps(s: Seq<char>, p: Pass) -> bool {
    &&& nfd(p.out) == s
    &&& p.out.len() > 0 <==> s.len() > 0
    &&& s.len() > 0 ==> p.last <= ccc(s.last())
    &&& p.starter is Some ==> {
        &&& 0 <= p.starter->0 < p.out.len()
        &&& p.last == 0 <==> p.starter->0 == p.out.len() - 1
        &&& forall|i: int|
            p.starter->0 < i < p.out.len() ==> 0 < ccc(#[trigger] p.out[i]) <= p.last
                && is_reduced(p.out[i])
    }
}

/// Joining a mark into an earlier starter leaves the NFD that pushing it would
/// give.
proof fn lemma_join_keeps_nfd(out: Seq<char>, at: int, b: char)
    requires
        0 <= at < out.len(),
        join(out[at], b) is Some,
        is_reduced(b),
        forall|i: int|
            at < i < out.len() ==> ccc(#[trigger] out[i]) != 0 && ccc(out[i]) != ccc(b)
                && is_reduced(out[i]),
        at < out.len() - 1 ==> ccc(b) != 0,
    ensures
        nfd(out.update(at, join(out[at], b)->0)) == insert_mark(nfd(out), b),
{
    let a = out[at];
    let c = join(a, b)->0;
    let head = out.take(at);
    let marks = out.skip(at + 1);
    let base = reorder(decompose_all(head) + decompose(a));
    lemma_join(a, b);
    lemma_decompose_reduced(marks);
    lemma_decompose_one(a);
    lemma_decompose_one(c);
    // As it stood.
    assert(out == (head + seq![a]) + marks);
    lemma_decompose_concat(head + seq![a], marks);
    lemma_decompose_concat(head, seq![a]);
    lemma_reorder_concat(decompose_all(head) + decompose(a), marks);
    // As it is now.
    let new = out.update(at, c);
    assert(new == (head + seq![c]) + marks);
    lemma_decompose_concat(head + seq![c], marks);
    lemma_decompose_concat(head, seq![c]);
    assert(decompose_all(head) + decompose(c) == (decompose_all(head) + decompose(a)) + seq![b]);
    lemma_reorder_concat(decompose_all(head) + decompose(a), seq![b]);
    lemma_insert_one(base, b);
    lemma_reorder_concat(decompose_all(head) + decompose(c), marks);
    if marks.len() > 0 {
        lemma_insert_all_commutes(base, b, marks);
    }
}

pub proof fn lemma_push_nfd(out: Seq<char>, c: char)
    requires
        is_reduced(c),
    ensures
        nfd(out.push(c)) == insert_mark(nfd(out), c),
{
    assert(out.push(c) == out + seq![c]);
    lemma_decompose_concat(out, seq![c]);
    lemma_decompose_one(c);
    lemma_reorder_concat(decompose_all(out), seq![c]);
    lemma_insert_one(nfd(out), c);
}

/// The composition pass over a fully decomposed, ordered text.
pub proof fn lemma_pass(s: Seq<char>)
    requires
        all_reduced(s),
        is_ordered(s),
    ensures
        keeps(s, pass(s)),
    decreases s.len(),
{
    if s.len() == 0 {
        assert(s == Seq::<char>::empty());
        assert(nfd(s) == s);
    } else {
        let u = s.drop_last();
        let c = s.last();
        lemma_ordered_prefix(s);
        assert forall|i: int| 0 <= i < u.len() implies is_reduced(#[trigger] u[i]) by {
            assert(u[i] == s[i]);
        }
        lemma_pass(u);
        assert(is_reduced(s[s.len() - 1]));
        if u.len() > 0 {
            assert(in_order(s, s.len() - 1));
        }
        let p = pass(u);
        if joined(p, c) is Some {
            lemma_join_keeps_nfd(p.out, p.starter->0, c);
            assert(keeps(s, pass(s)));
        } else {
            lemma_push_nfd(p.out, c);
            assert(keeps(s, pass(s)));
        }
    }
}

/// The NFD of the NFC is the NFD.
pub proof fn law_nfd_of_nfc(s: Seq<char>)
    ensures
        nfd(nfc(s)) == nfd(s),
{
    lemma_nfd(s);
    lemma_pass(nfd(s));
}

/// NFC is idempotent.
pub proof fn law_nfc_idempotent(s: Seq<char>)
    ensures
        nfc(nfc(s)) == nfc(s),
{
    law_nfd_of_nfc(s);
}

// ---------------------------------------------------------------------------
// Putting texts together
// ---------------------------------------------------------------------------
/// Nothing moves before a starter.
pub proof fn lemma_insert_behind(t: Seq<char>, u: Seq<char>, c: char)
    requires
        u.len() > 0,
        ccc(u[0]) == 0,
    ensures
        insert_mark(t + u, c) == t + insert_mark(u, c),
        insert_mark(u, c)[0] == u[0],
    decreases u.len(),
{
    lemma_insert_len(u, c);
    assert((t + u).last() == u.last());
    if ccc(c) != 0 && ccc(u.last()) > ccc(c) {
        assert((t + u).drop_last() == t + u.drop_last());
        lemma_insert_behind(t, u.drop_last(), c);
        lemma_insert_len(u.drop_last(), c);
        assert(insert_mark(t + u, c) == t + insert_mark(u, c));
    } else {
        assert((t + u).push(c) == t + u.push(c));
    }
}

/// Two texts, the second of which begins with a starter, are ordered apart.
proof fn lemma_reorder_split(a: Seq<char>, b: Seq<char>)
    requires
        b.len() > 0,
        ccc(b[0]) == 0,
    ensures
        reorder(a + b) == reorder(a) + reorder(b),
        reorder(b).len() > 0,
        reorder(b)[0] == b[0],
    decreases b.len(),
{
    assert((a + b).drop_last() == a + b.drop_last());
    if b.len() == 1 {
        assert(a + b.drop_last() == a);
        assert(b.drop_last() == Seq::<char>::empty());
        assert(reorder(b) == seq![b[0]]) by {
            reveal_with_fuel(reorder, 2);
        }
        assert(reorder(a + b) == reorder(a) + reorder(b));
    } else {
        lemma_reorder_split(a, b.drop_last());
        lemma_insert_behind(reorder(a), reorder(b.drop_last()), b.last());
        lemma_insert_len(reorder(b.drop_last()), b.last());
    }
}

/// Two texts, the second of which decomposes into a starter first, have an NFD
/// made of theirs.
pub proof fn lemma_nfd_split(a: Seq<char>, b: Seq<char>)
    requires
        b.len() > 0,
        ccc(decompose(b[0])[0]) == 0,
    ensures
        nfd(a + b) == nfd(a) + nfd(b),
        nfd(b).len() > 0,
        nfd(b)[0] == decompose(b[0])[0],
{
    lemma_decompose_concat(a, b);
    assert(b == seq![b[0]] + b.skip(1));
    lemma_decompose_concat(seq![b[0]], b.skip(1));
    lemma_decompose_one(b[0]);
    lemma_decompose(b[0]);
    lemma_reorder_split(decompose_all(a), decompose_all(b));
}

/// A composition pass starts afresh at a starter that does not join.
pub proof fn lemma_pass_split(x: Seq<char>, y: Seq<char>)
    requires
        y.len() > 0,
        ccc(y[0]) == 0,
        joined(pass(x), y[0]) is None,
    ensures
        pass(x + y).out == pass(x).out + pass(y).out,
        pass(y).starter is Some,
        0 <= pass(y).starter->0 < pass(y).out.len(),
        pass(x + y).starter == Some(pass(x).out.len() + pass(y).starter->0),
        pass(x + y).last == pass(y).last,
    decreases y.len(),
{
    assert((x + y).drop_last() == x + y.drop_last());
    let z = y.last();
    if y.len() == 1 {
        assert(x + y.drop_last() == x);
        assert(y.drop_last() == Seq::<char>::empty());
        assert(pass(y) == step(start(), z)) by {
            reveal_with_fuel(pass, 2);
        }
        assert(pass(x + y).out == pass(x).out + pass(y).out);
    } else {
        let v = y.drop_last();
        lemma_pass_split(x, v);
        let p = pass(x + v);
        let q = pass(v);
        assert(p.out[p.starter->0] == q.out[q.starter->0]);
        assert(joined(p, z) == joined(q, z));
        assert(pass(x + y).out == pass(x).out + pass(y).out);
    }
}

/// Is `z` a starter that decomposes no further and never joins with what comes
/// before it?
pub open spec fn is_boundary(z: char) -> bool {
    '\u{00C0}' > z
}

pub proof fn lemma_boundary(z: char)
    requires
        is_boundary(z),
    ensures
        ccc(z) == 0,
        is_reduced(z),
        decompose(z) == seq![z],
        forall|p: Pass| (#[trigger] joined(p, z)) is None,
{
    lemma_low_is_starter(z);
    if has_mapping(z) {
        lemma_mapping(z);
    }
    assert forall|p: Pass| (#[trigger] joined(p, z)) is None by {
        if joined(p, z) is Some {
            lemma_join(p.out[p.starter->0], z);
        }
    }
}

/// A text is normalized apart from what follows, where that begins with a
/// character below U+00C0 (any ASCII character).
pub proof fn law_nfc_splits(a: Seq<char>, b: Seq<char>)
    requires
        b.len() > 0,
        is_boundary(b[0]),
    ensures
        nfc(a + b) == nfc(a) + nfc(b),
{
    lemma_boundary(b[0]);
    lemma_nfd_split(a, b);
    lemma_pass_split(nfd(a), nfd(b));
}

/// ASCII text, and any text of characters below U+00C0, is in NFC.
pub proof fn law_ascii_is_nfc(s: Seq<char>)
    requires
        forall|i: int| 0 <= i < s.len() ==> is_boundary(#[trigger] s[i]),
    ensures
        nfc(s) == s,
    decreases s.len(),
{
    if s.len() == 0 {
        assert(nfd(s) == s);
    } else {
        let u = s.drop_last();
        let c = s.last();
        assert(is_boundary(s[s.len() - 1]));
        assert forall|i: int| 0 <= i < u.len() implies is_boundary(#[trigger] u[i]) by {
            assert(u[i] == s[i]);
        }
        law_ascii_is_nfc(u);
        lemma_boundary(c);
        assert(s == u + seq![c]);
        law_nfc_splits(u, seq![c]);
        lemma_decompose_one(c);
        assert(nfd(seq![c]) == seq![c]) by {
            assert(seq![c].drop_last() == Seq::<char>::empty());
            reveal_with_fuel(reorder, 2);
        }
        assert(nfc(seq![c]) == seq![c]) by {
            assert(seq![c].drop_last() == Seq::<char>::empty());
            reveal_with_fuel(pass, 2);
        }
    }
}

} // verus!
