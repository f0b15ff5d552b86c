//! What is composed: Hangul syllables by arithmetic, and every pair that has a
//! composite.

use vstd::prelude::*;

use crate::unicode::{decompose, jamo, join, joined, nfc, nfd, pass, start, step};
use crate::unicode_compose::{ccc, lemma_hangul_is_starter};

use crate::unicode_decomp::{has_mapping, lemma_mapping, mapping};
use crate::unicode_laws::{
    all_reduced, in_order, is_ordered, lemma_decompose, lemma_decompose_concat, lemma_decompose_one,
    lemma_is_own_nfd, lemma_jamo, lemma_join, lemma_nfd, lemma_pass, lemma_reorder_ordered,
};
use crate::unicode_rows::is_syllable;

verus! {

/// The parts of the Hangul syllable with that number: consonant, vowel and, unless
/// it is open, a second consonant.
pub open spec fn parts_of_syllable(c: char) -> Seq<char> {
    let n = c as int - 0xAC00;
    let l = (0x1100 + n / 588) as char;
    let v = (0x1161 + n % 588 / 28) as char;
    let t = (0x11A7 + n % 28) as char;
    if n % 28 == 0 {
        seq![l, v]
    } else {
        seq![l, v, t]
    }
}

proof fn lemma_all_starters(s: Seq<char>)
    requires
        forall|i: int| 0 <= i < s.len() ==> ccc(#[trigger] s[i]) == 0,
    ensures
        is_ordered(s),
{
    assert forall|i: int| 0 < i < s.len() implies #[trigger] in_order(s, i) by {
        assert(ccc(s[i]) == 0);
    }
}

/// A Hangul syllable comes apart into its parts, and these go together again.
pub proof fn law_syllables_compose(c: char)
    requires
        0xAC00 <= c as int <= 0xD7A3,
    ensures
        nfd(seq![c]) == parts_of_syllable(c),
        nfc(parts_of_syllable(c)) == seq![c],
        nfc(seq![c]) == seq![c],
{
    let s = parts_of_syllable(c);
    let n = c as int - 0xAC00;
    let l = s[0];
    let v = s[1];
    assert(is_syllable(c));
    assert(0 <= n / 588 <= 18);
    assert(0 <= n % 588 / 28 <= 20);
    assert(0 <= n % 28 <= 27);
    assert(n % 588 % 28 == n % 28);
    assert(s == jamo(c));
    lemma_decompose_one(c);
    lemma_decompose(c);
    lemma_jamo(c);
    assert forall|i: int| 0 <= i < s.len() implies ccc(#[trigger] s[i]) == 0 by {
        lemma_hangul_is_starter(s[i]);
    }
    lemma_all_starters(s);
    lemma_reorder_ordered(s);
    assert(nfd(seq![c]) == s);
    lemma_is_own_nfd(s);
    let one = seq![l];
    let two = seq![l, v];
    assert(one.drop_last() == Seq::<char>::empty());
    assert(two.drop_last() == one);
    assert(ccc(l) == 0 && ccc(v) == 0);
    let p1 = pass(one);
    assert(p1 == step(start(), l)) by {
        reveal_with_fuel(pass, 2);
    }
    assert(p1.out == seq![l]);
    let lv = (0xAC00 + (n - n % 28)) as char;
    assert((l as int - 0x1100) * 588 + (v as int - 0x1161) * 28 == n - n % 28);
    assert(join(l, v) == Some(lv));
    let p2 = pass(two);
    assert(p2 == step(p1, v));
    assert(p2.out == seq![lv]);
    if n % 28 == 0 {
        assert(s == two);
        assert(lv == c);
    } else {
        let t = s[2];
        assert(s.drop_last() == two);
        assert(ccc(t) == 0);
        assert((n - n % 28) % 28 == 0);
        assert(join(lv, t) == Some(c));
        assert(pass(s) == step(p2, t));
        assert(pass(s).out == seq![c]);
    }
}

/// A pair that has a composite is put together: a starter that is its own NFC, with a
/// character behind it that is in order behind all that the starter comes apart into.
pub proof fn law_pairs_compose(a: char, b: char)
    requires
        join(a, b) is Some,
        ccc(a) == 0,
        nfc(seq![a]) == seq![a],
        nfd(seq![b]) == seq![b],
        is_ordered(nfd(seq![a]).push(b)),
    ensures
        nfc(seq![a, b]) == seq![join(a, b)->0],
        nfc(seq![join(a, b)->0]) == seq![join(a, b)->0],
{
    let c = join(a, b)->0;
    let d = nfd(seq![a]);
    let e = d.push(b);
    lemma_decompose_one(a);
    lemma_decompose_one(b);
    lemma_decompose_one(c);
    lemma_join(a, b);
    lemma_nfd(seq![a]);
    lemma_nfd(seq![b]);
    lemma_pass(d);
    let p = pass(d);
    assert(p.out == seq![a]);
    assert forall|i: int| 0 <= i < e.len() implies crate::unicode_laws::is_reduced(
        #[trigger] e[i],
    ) by {
        if i < d.len() {
            assert(e[i] == d[i]);
        } else {
            assert(e[i] == seq![b][0]);
        }
    }
    lemma_is_own_nfd(e);
    lemma_starts(d);
    assert(e.drop_last() == d);
    assert(pass(e) == step(p, b));
    assert(joined(p, b) == Some(c));
    assert(pass(e).out == seq![c]);
    assert(seq![a, b] == seq![a] + seq![b]);
    lemma_same_form(a, b, c);
}

/// A pass that has written a single starter has it as its last starter.
proof fn lemma_starts(d: Seq<char>)
    requires
        all_reduced(d),
        is_ordered(d),
        pass(d).out.len() == 1,
        ccc(pass(d).out[0]) == 0,
    ensures
        pass(d).starter == Some(0int),
        pass(d).last == 0,
{
    lemma_pass(d);
    lemma_no_starter(d);
}

/// A pass without a starter has written marks alone.
proof fn lemma_no_starter(d: Seq<char>)
    ensures
        pass(d).starter is None ==> forall|i: int|
            0 <= i < pass(d).out.len() ==> ccc(#[trigger] pass(d).out[i]) != 0,
    decreases d.len(),
{
    if d.len() > 0 {
        let u = d.drop_last();
        lemma_no_starter(u);
        let p = pass(u);
        let q = pass(d);
        assert(q == step(p, d.last()));
        if q.starter is None {
            assert(p.starter is None);
            assert(joined(p, d.last()) is None);
            assert(q.out == p.out.push(d.last()));
        }
    }
}

/// A pair and its composite have one form.
proof fn lemma_same_form(a: char, b: char, c: char)
    requires
        join(a, b) == Some(c),
        nfd(seq![b]) == seq![b],
        is_ordered(nfd(seq![a]).push(b)),
    ensures
        nfd(seq![a, b]) == nfd(seq![a]).push(b),
        nfd(seq![c]) == nfd(seq![a]).push(b),
{
    let d = nfd(seq![a]);
    let e = d.push(b);
    lemma_decompose_one(a);
    lemma_decompose_one(b);
    lemma_decompose_one(c);
    lemma_join(a, b);
    lemma_nfd(seq![b]);
    assert(crate::unicode_laws::is_reduced(seq![b][0]));
    assert(decompose(b) == seq![b]);
    crate::unicode_laws::lemma_push_nfd(seq![a], b);
    assert(seq![a].push(b) == seq![a, b]);
    crate::unicode_laws::lemma_ordered_prefix(e);
    assert(e.drop_last() == d);
    assert(nfd(seq![a, b]) == e);
    crate::unicode_laws::lemma_push_nfd(seq![a], b);
    assert(crate::unicode::decompose_all(seq![c]) == decompose(a).push(b));
    lemma_decompose_concat(seq![a], seq![b]);
    assert(seq![a] + seq![b] == seq![a, b]);
    assert(decompose(a) + seq![b] == decompose(a).push(b));
    assert(crate::unicode::decompose_all(seq![a, b]) == decompose(a).push(b));
}

/// A character is canonically equivalent to what it maps to.
pub proof fn law_mappings_are_equivalent(c: char)
    requires
        has_mapping(c),
    ensures
        nfd(seq![c]) == nfd(
            if mapping(c).1 == '\0' {
                seq![mapping(c).0]
            } else {
                seq![mapping(c).0, mapping(c).1]
            },
        ),
        nfc(seq![c]) == nfc(
            if mapping(c).1 == '\0' {
                seq![mapping(c).0]
            } else {
                seq![mapping(c).0, mapping(c).1]
            },
        ),
{
    let (a, b) = mapping(c);
    lemma_mapping(c);
    lemma_decompose_one(c);
    lemma_decompose_one(a);
    if b != '\0' {
        lemma_decompose_one(b);
        lemma_decompose_concat(seq![a], seq![b]);
        assert(seq![a] + seq![b] == seq![a, b]);
        assert(decompose(b) == seq![b]);
        assert(decompose(a) + seq![b] == decompose(a).push(b));
    }
}

/// A character that maps to nothing and is no Hangul syllable is its own
/// decomposition.
pub proof fn law_other_characters_stay(c: char)
    requires
        !has_mapping(c),
        !(0xAC00 <= c as int <= 0xD7A3),
    ensures
        nfd(seq![c]) == seq![c],
{
    assert(!is_syllable(c));
    lemma_decompose_one(c);
    let s = seq![c];
    assert(is_ordered(s));
    lemma_reorder_ordered(s);
}

} // verus!
