//! NFC brings in no character that a fix removes or replaces.

use vstd::prelude::*;

use crate::checks::{is_ascii_control, is_illegal, is_invisible};
use crate::unicode::{
    decompose, decompose_all, insert_mark, join, joined, lemma_reduction, nfc, nfd, pass, reduction,
    reorder, step,
};
use crate::unicode_compose::{
    ccc, composite, has_composite, lemma_composite, lemma_low_is_starter, lemma_negated_angles,
    lemma_overlay,
};
use crate::unicode_cuts::lemma_insert_place;
use crate::unicode_decomp::{has_mapping, lemma_mapping, mapping};
use crate::unicode_laws::{
    lemma_boundary, lemma_insert_len, lemma_jamo, lemma_join, lemma_reorder_all_chars,
    lemma_reorder_len,
};
use crate::unicode_rows::{is_jamo, is_syllable};

verus! {

// ---------------------------------------------------------------------------
// Properties that every mapping and every composite keep
// ---------------------------------------------------------------------------
/// Does `p` hold of everything that normalization makes of characters of which
/// it holds?
spec fn is_kept(p: spec_fn(char) -> bool) -> bool {
    &&& forall|c: char|
        p(c) && #[trigger] has_mapping(c) ==> p(mapping(c).0) && (mapping(c).1 == '\0' || p(
            mapping(c).1,
        ))
    &&& forall|c: char| is_jamo(c) || is_syllable(c) ==> #[trigger] p(c)
    &&& forall|a: char, b: char| #[trigger] has_composite(a, b) ==> p(composite(a, b))
}

spec fn all_chars(s: Seq<char>, p: spec_fn(char) -> bool) -> bool {
    forall|i: int| 0 <= i < s.len() ==> p(#[trigger] s[i])
}

proof fn lemma_decompose_kept(c: char, p: spec_fn(char) -> bool)
    requires
        is_kept(p),
        p(c),
    ensures
        all_chars(decompose(c), p),
    decreases reduction(c),
{
    if is_syllable(c) {
        lemma_jamo(c);
    } else if has_mapping(c) {
        lemma_reduction(c);
        lemma_decompose_kept(mapping(c).0, p);
    }
}

proof fn lemma_decompose_all_kept(s: Seq<char>, p: spec_fn(char) -> bool)
    requires
        is_kept(p),
        all_chars(s, p),
    ensures
        all_chars(decompose_all(s), p),
    decreases s.len(),
{
    if s.len() > 0 {
        let u = s.drop_last();
        assert forall|i: int| 0 <= i < u.len() implies p(#[trigger] u[i]) by {
            assert(u[i] == s[i]);
        }
        lemma_decompose_all_kept(u, p);
        assert(p(s[s.len() - 1]));
        lemma_decompose_kept(s.last(), p);
    }
}

proof fn lemma_pass_kept(s: Seq<char>, p: spec_fn(char) -> bool)
    requires
        is_kept(p),
        all_chars(s, p),
    ensures
        all_chars(pass(s).out, p),
        pass(s).starter is Some ==> 0 <= pass(s).starter->0 < pass(s).out.len(),
    decreases s.len(),
{
    if s.len() > 0 {
        let u = s.drop_last();
        assert forall|i: int| 0 <= i < u.len() implies p(#[trigger] u[i]) by {
            assert(u[i] == s[i]);
        }
        lemma_pass_kept(u, p);
        assert(p(s[s.len() - 1]));
        let q = pass(u);
        if joined(q, s.last()) is Some {
            lemma_join_syllable(q.out[q.starter->0], s.last());
        }
    }
}

/// What a pair joins into is a syllable or a composite of the tables.
proof fn lemma_join_syllable(a: char, b: char)
    requires
        join(a, b) is Some,
    ensures
        is_syllable(join(a, b)->0) || (has_composite(a, b) && join(a, b)->0 == composite(a, b)),
{
}

proof fn lemma_nfc_kept(s: Seq<char>, p: spec_fn(char) -> bool)
    requires
        is_kept(p),
        all_chars(s, p),
    ensures
        all_chars(nfc(s), p),
{
    lemma_decompose_all_kept(s, p);
    lemma_reorder_all_chars(decompose_all(s), p);
    lemma_pass_kept(nfd(s), p);
}

proof fn lemma_hangul(c: char)
    requires
        is_jamo(c) || is_syllable(c),
    ensures
        c >= '\u{1100}',
{
}

/// NFC brings in no ASCII control character.
pub proof fn law_nfc_adds_no_control(s: Seq<char>)
    requires
        forall|i: int| 0 <= i < s.len() ==> !is_ascii_control(#[trigger] s[i]),
    ensures
        forall|i: int| 0 <= i < nfc(s).len() ==> !is_ascii_control(#[trigger] nfc(s)[i]),
{
    let p = |c: char| !is_ascii_control(c);
    assert(is_kept(p)) by {
        assert forall|c: char| is_jamo(c) || is_syllable(c) implies #[trigger] p(c) by {
            lemma_hangul(c);
        }
        assert forall|c: char| p(c) && #[trigger] has_mapping(c) implies p(mapping(c).0) && (
        mapping(c).1 == '\0' || p(mapping(c).1)) by {
            lemma_mapping(c);
        }
        assert forall|a: char, b: char| #[trigger] has_composite(a, b) implies p(
            composite(a, b),
        ) by {
            lemma_composite(a, b);
        }
    }
    lemma_nfc_kept(s, p);
    assert forall|i: int| 0 <= i < nfc(s).len() implies !is_ascii_control(#[trigger] nfc(s)[i]) by {
        assert(p(nfc(s)[i]));
    }
}

/// NFC brings in no invisible character.
pub proof fn law_nfc_adds_no_invisible(s: Seq<char>)
    requires
        forall|i: int| 0 <= i < s.len() ==> !is_invisible(#[trigger] s[i]),
    ensures
        forall|i: int| 0 <= i < nfc(s).len() ==> !is_invisible(#[trigger] nfc(s)[i]),
{
    let p = |c: char| !is_invisible(c);
    assert(is_kept(p)) by {
        assert forall|c: char| p(c) && #[trigger] has_mapping(c) implies p(mapping(c).0) && (
        mapping(c).1 == '\0' || p(mapping(c).1)) by {
            lemma_mapping(c);
        }
        assert forall|a: char, b: char| #[trigger] has_composite(a, b) implies p(
            composite(a, b),
        ) by {
            lemma_composite(a, b);
        }
    }
    lemma_nfc_kept(s, p);
    assert forall|i: int| 0 <= i < nfc(s).len() implies !is_invisible(#[trigger] nfc(s)[i]) by {
        assert(p(nfc(s)[i]));
    }
}

/// NFC brings in no slash.
pub proof fn law_nfc_adds_no_slash(s: Seq<char>)
    requires
        forall|i: int| 0 <= i < s.len() ==> #[trigger] s[i] != '/',
    ensures
        forall|i: int| 0 <= i < nfc(s).len() ==> #[trigger] nfc(s)[i] != '/',
{
    let p = |c: char| c != '/';
    assert(is_kept(p)) by {
        assert forall|c: char| is_jamo(c) || is_syllable(c) implies #[trigger] p(c) by {
            lemma_hangul(c);
        }
        assert forall|c: char| p(c) && #[trigger] has_mapping(c) implies p(mapping(c).0) && (
        mapping(c).1 == '\0' || p(mapping(c).1)) by {
            lemma_mapping(c);
        }
        assert forall|a: char, b: char| #[trigger] has_composite(a, b) implies p(
            composite(a, b),
        ) by {
            lemma_composite(a, b);
            lemma_mapping(composite(a, b));
        }
    }
    lemma_nfc_kept(s, p);
    assert forall|i: int| 0 <= i < nfc(s).len() implies #[trigger] nfc(s)[i] != '/' by {
        assert(p(nfc(s)[i]));
    }
}

// ---------------------------------------------------------------------------
// The angle brackets
// ---------------------------------------------------------------------------
/// Is the `i`-th character of `s` no character that Windows rejects, unless it
/// is an angle bracket with its overlay behind it?
spec fn is_covered(s: Seq<char>, i: int) -> bool {
    is_illegal(s[i]) ==> (s[i] == '<' || s[i] == '>') && i + 1 < s.len() && s[i + 1] == '\u{0338}'
}

spec fn all_covered(s: Seq<char>) -> bool {
    forall|i: int| 0 <= i < s.len() ==> #[trigger] is_covered(s, i)
}

/// As `all_covered`, but that the last character may wait for its overlay.
spec fn almost_covered(s: Seq<char>) -> bool {
    forall|i: int| 0 <= i && i + 1 < s.len() ==> #[trigger] is_covered(s, i)
}

proof fn lemma_decompose_covered(c: char)
    requires
        !is_illegal(c),
    ensures
        all_covered(decompose(c)),
    decreases reduction(c),
{
    let d = decompose(c);
    if is_syllable(c) {
        lemma_jamo(c);
    } else if has_mapping(c) {
        let (a, b) = mapping(c);
        lemma_reduction(c);
        lemma_mapping(c);
        if is_illegal(a) {
            lemma_boundary(a);
            assert(d == seq![a, b]);
        } else {
            lemma_decompose_covered(a);
            if b != '\0' {
                assert forall|i: int| 0 <= i < d.len() implies #[trigger] is_covered(d, i) by {
                    if i < decompose(a).len() {
                        assert(is_covered(decompose(a), i));
                    }
                }
            }
        }
    }
}

proof fn lemma_decompose_all_covered(s: Seq<char>)
    requires
        forall|i: int| 0 <= i < s.len() ==> !is_illegal(#[trigger] s[i]),
    ensures
        all_covered(decompose_all(s)),
    decreases s.len(),
{
    if s.len() > 0 {
        let u = s.drop_last();
        assert forall|i: int| 0 <= i < u.len() implies !is_illegal(#[trigger] u[i]) by {
            assert(u[i] == s[i]);
        }
        lemma_decompose_all_covered(u);
        assert(!is_illegal(s[s.len() - 1]));
        lemma_decompose_covered(s.last());
        let a = decompose_all(u);
        let b = decompose(s.last());
        let d = decompose_all(s);
        assert forall|i: int| 0 <= i < d.len() implies #[trigger] is_covered(d, i) by {
            if i < a.len() {
                assert(is_covered(a, i));
            } else {
                assert(is_covered(b, i - a.len()));
            }
        }
    }
}

/// Putting a character in parts no bracket from its overlay.
proof fn lemma_insert_covered(t: Seq<char>, c: char)
    requires
        almost_covered(t),
        t.len() > 0 && is_illegal(t.last()) ==> (t.last() == '<' || t.last() == '>') && c
            == '\u{0338}',
    ensures
        almost_covered(insert_mark(t, c)),
        is_illegal(insert_mark(t, c).last()) ==> insert_mark(t, c).last() == c,
{
    let r = insert_mark(t, c);
    lemma_overlay();
    lemma_insert_len(t, c);
    if t.len() > 0 && is_illegal(t.last()) {
        lemma_low_is_starter(t.last());
    }
    if ccc(c) == 0 {
        assert(r == t.push(c));
        assert forall|i: int| 0 <= i && i + 1 < r.len() implies #[trigger] is_covered(r, i) by {
            if i + 1 < t.len() {
                assert(is_covered(t, i));
            }
        }
    } else {
        let k = lemma_insert_place(t, c);
        assert(r == t.take(k).push(c) + t.skip(k));
        if is_illegal(c) {
            lemma_low_is_starter(c);
        }
        assert forall|i: int| 0 <= i && i + 1 < r.len() implies #[trigger] is_covered(r, i) by {
            if i + 1 < k {
                assert(is_covered(t, i));
                assert(r[i] == t[i] && r[i + 1] == t[i + 1]);
            } else if i + 1 == k {
                assert(r[i] == t[i]);
                assert(r[k] == c);
                if k < t.len() {
                    assert(is_covered(t, i));
                    assert(ccc(t[k]) > ccc(c));
                }
            } else if i > k {
                assert(r[i] == t[i - 1] && r[i + 1] == t[i]);
                assert(is_covered(t, i - 1));
            } else {
                assert(r[i] == c);
            }
        }
        if k < t.len() {
            assert(r.last() == t.last());
            assert(ccc(t[t.len() - 1]) > ccc(c));
        } else {
            assert(r.last() == c);
        }
    }
}

proof fn lemma_reorder_covered(d: Seq<char>, j: int)
    requires
        all_covered(d),
        0 <= j <= d.len(),
    ensures
        almost_covered(reorder(d.take(j))),
        j > 0 && is_illegal(reorder(d.take(j)).last()) ==> reorder(d.take(j)).last() == d[j - 1],
    decreases j,
{
    if j > 0 {
        lemma_reorder_covered(d, j - 1);
        assert(d.take(j).drop_last() == d.take(j - 1));
        let t = reorder(d.take(j - 1));
        lemma_reorder_len(d.take(j - 1));
        if j > 1 {
            assert(is_covered(d, j - 2));
        }
        lemma_insert_covered(t, d[j - 1]);
    }
}

/// The composition pass joins every bracket with its overlay.
proof fn lemma_pass_covered(t: Seq<char>, j: int)
    requires
        all_covered(t),
        0 <= j <= t.len(),
    ensures
        pass(t.take(j)).starter is Some ==> 0 <= pass(t.take(j)).starter->0 < pass(
            t.take(j),
        ).out.len(),
        forall|i: int|
            0 <= i < pass(t.take(j)).out.len() && is_illegal(#[trigger] pass(t.take(j)).out[i])
                ==> {
                &&& j > 0
                &&& pass(t.take(j)).out[i] == t[j - 1]
                &&& pass(t.take(j)).starter == Some(i)
                &&& pass(t.take(j)).last == 0
            },
    decreases j,
{
    if j > 0 {
        lemma_pass_covered(t, j - 1);
        assert(t.take(j).drop_last() == t.take(j - 1));
        let p = pass(t.take(j - 1));
        let q = pass(t.take(j));
        let c = t[j - 1];
        assert(q == step(p, c));
        if joined(p, c) is Some {
            lemma_join(p.out[p.starter->0], c);
            lemma_join_syllable(p.out[p.starter->0], c);
            if has_composite(p.out[p.starter->0], c) {
                lemma_composite(p.out[p.starter->0], c);
            }
        }
        if is_illegal(c) {
            lemma_boundary(c);
        }
        assert forall|i: int| 0 <= i < q.out.len() && is_illegal(#[trigger] q.out[i]) implies {
            &&& q.out[i] == c
            &&& q.starter == Some(i)
            &&& q.last == 0
        } by {
            if i < p.out.len() && is_illegal(p.out[i]) {
                // The bracket written last, and its overlay.
                assert(is_covered(t, j - 2));
                lemma_negated_angles();
                assert(joined(p, c) is Some);
            }
        }
    }
}

/// NFC brings in no character that Windows rejects: a bracket that a
/// decomposition sets free is joined with its overlay again.
pub proof fn law_nfc_adds_no_illegal(s: Seq<char>)
    requires
        forall|i: int| 0 <= i < s.len() ==> !is_illegal(#[trigger] s[i]),
    ensures
        forall|i: int| 0 <= i < nfc(s).len() ==> !is_illegal(#[trigger] nfc(s)[i]),
{
    let d = decompose_all(s);
    let t = nfd(s);
    lemma_decompose_all_covered(s);
    lemma_reorder_covered(d, d.len() as int);
    assert(d.take(d.len() as int) == d);
    lemma_reorder_len(d);
    if d.len() > 0 {
        assert(is_covered(d, d.len() - 1));
    }
    assert forall|i: int| 0 <= i < t.len() implies #[trigger] is_covered(t, i) by {
        if i + 1 == t.len() {
            assert(!is_illegal(t.last()));
        }
    }
    lemma_pass_covered(t, t.len() as int);
    assert(t.take(t.len() as int) == t);
    if t.len() > 0 {
        assert(is_covered(t, t.len() - 1));
    }
}

} // verus!
