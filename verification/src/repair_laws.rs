//! How the fixes of single checks make up the fix of a name, and how names that are
//! taken are numbered.

use vstd::prelude::*;
use vstd::utf8::{decode_utf8, encode_utf8, valid_utf8};

use crate::checks::{
    component_notes, device_stem, extension_of, fits, fitting, is_in, is_reserved, mended, stem_of,
    truncated, Note, Trouble, COMPONENT_LIMIT,
};
use crate::engine::Selection;
use crate::fix_laws::{
    is_free_of, law_truncated, lemma_device_stem, lemma_drawn_free, lemma_mended, lemma_mended_free,
    lemma_nfc_free, lemma_short_fits, lemma_trim_start_nfc,
};
use crate::fixname::{
    candidate, deduped, first_candidate, first_short, fixing_ids, is_own, short_candidate,
    has_free_candidate, is_dots, is_free, kept_keys, key_of, last_number, lemma_reserved_len,
    numbered, planned, planning, reasons_for, released, sanitized, sanitized_text, stays,
    without_trouble,
};
use crate::mend_laws::{law_characters_are_mended, law_mended_splits, stand_in};

use crate::numerals::decimal;
use crate::plan_laws::{lemma_planning, plan_keys, target};
use crate::text::{is_stripped, lemma_trim_end, lemma_trim_start, trim_end, trim_start, utf8_len};
use crate::unicode::{casefold, nfc, utf16_units};
use crate::unicode_cuts::law_nfc_prefix;
use crate::utf8::{lossy, patched};
use crate::unicode_laws::law_nfc_idempotent;

verus! {

// ---------------------------------------------------------------------------
// One fix at a time
// ---------------------------------------------------------------------------
/// Is `s` one dot or two?
pub open spec fn is_one_or_two_dots(s: Seq<char>) -> bool {
    s == seq!['.'] || s == seq!['.', '.']
}

proof fn lemma_dots(s: Seq<char>)
    ensures
        is_dots(s) == is_one_or_two_dots(s),
{
    reveal_strlit(".");
    reveal_strlit("..");
    assert("."@ == seq!['.']);
    assert(".."@ == seq!['.', '.']);
}

/// Path syntax stays as it is.
pub proof fn law_dots_stay(s: Seq<char>, sel: Selection)
    requires
        is_one_or_two_dots(s),
    ensures
        sanitized_text(s, sel) == s,
{
    lemma_dots(s);
}

/// A text on which there is nothing to do stays as it is.
pub proof fn law_texts_in_order_stay(s: Seq<char>, sel: Selection)
    requires
        s.len() > 0,
        is_mended(s, sel),
        sel.runs(7) ==> nfc(s) == s,
        sel.runs(4) ==> s[0] != ' ',
        sel.runs(3) ==> s.last() != ' ' && s.last() != '.',
        sel.runs(9) ==> fits(s),
        sel.runs(0) ==> !is_reserved(device_stem(s)),
    ensures
        sanitized_text(s, sel) == s,
{
    lemma_is_mended(s, s, sel);
}

/// What is read of a name: its text; where it is none, the text with an underscore
/// for each invalid byte; and where that fix is off, what the decoder puts.
pub proof fn law_names_are_read(bytes: Seq<u8>, sel: Selection)
    ensures
        valid_utf8(bytes) ==> sanitized(bytes, sel) == sanitized_text(decode_utf8(bytes), sel),
        !valid_utf8(bytes) && sel.runs(12) ==> sanitized(bytes, sel) == sanitized_text(
            patched(bytes),
            sel,
        ),
        !valid_utf8(bytes) && !sel.runs(12) ==> sanitized(bytes, sel) == sanitized_text(
            lossy(bytes),
            sel,
        ),
{
}

proof fn lemma_commute_one(t: Trouble, u: Trouble, c: char)
    ensures
        mended(t, mended(u, seq![c])) == mended(u, mended(t, seq![c])),
{
    law_characters_are_mended(t, c);
    law_characters_are_mended(u, c);
    let none = Seq::<char>::empty();
    assert(mended(t, none) == none && mended(u, none) == none);
    let a = stand_in(t, c);
    let b = stand_in(u, c);
    if a.len() > 0 {
        assert(a == seq![a[0]]);
        law_characters_are_mended(u, a[0]);
    } else {
        assert(a == none);
    }
    if b.len() > 0 {
        assert(b == seq![b[0]]);
        law_characters_are_mended(t, b[0]);
    } else {
        assert(b == none);
    }
}

/// It does not matter which of two kinds of characters is mended first.
pub proof fn law_mending_commutes(t: Trouble, u: Trouble, s: Seq<char>)
    ensures
        mended(t, mended(u, s)) == mended(u, mended(t, s)),
    decreases s.len(),
{
    if s.len() == 0 {
        let none = Seq::<char>::empty();
        assert(s == none);
        assert(mended(t, none) == none && mended(u, none) == none);
    } else {
        let v = s.drop_last();
        let one = seq![s.last()];
        assert(v + one == s);
        law_mending_commutes(t, u, v);
        lemma_commute_one(t, u, s.last());
        law_mended_splits(t, v, one);
        law_mended_splits(u, v, one);
        law_mended_splits(t, mended(u, v), mended(u, one));
        law_mended_splits(u, mended(t, v), mended(t, one));
    }
}

/// Mending twice is mending once.
pub proof fn law_mending_is_idempotent(t: Trouble, s: Seq<char>)
    ensures
        mended(t, mended(t, s)) == mended(t, s),
{
    lemma_mended(t, t, s);
    lemma_mended_free(t, mended(t, s));
}

/// The check that flags a kind of character.
pub open spec fn check_of(t: Trouble) -> int {
    match t {
        Trouble::Illegal => 1,
        Trouble::Control => 2,
        Trouble::Invisible => 8,
    }
}

/// To sanitize a text is to mend its characters and to sanitize the rest.
pub proof fn law_sanitize_after_mending(t: Trouble, s: Seq<char>, sel: Selection)
    requires
        sel.runs(check_of(t)),
        !is_one_or_two_dots(s),
        !is_one_or_two_dots(mended(t, s)),
    ensures
        sanitized_text(mended(t, s), sel) == sanitized_text(s, sel),
{
    lemma_dots(s);
    lemma_dots(mended(t, s));
    let m = mended(t, s);
    law_mending_is_idempotent(t, s);
    let ctl = Trouble::Control;
    let ill = Trouble::Illegal;
    let inv = Trouble::Invisible;
    let a = if sel.runs(2) {
        mended(ctl, s)
    } else {
        s
    };
    let b = if sel.runs(1) {
        mended(ill, a)
    } else {
        a
    };
    law_mending_commutes(ctl, t, s);
    law_mending_commutes(ill, t, a);
    law_mending_commutes(inv, t, b);
    law_mending_is_idempotent(t, a);
    law_mending_is_idempotent(t, b);
    assert(without_trouble(m, sel) == without_trouble(s, sel));
}

/// Is there nothing to mend in `s`?
pub open spec fn is_mended(s: Seq<char>, sel: Selection) -> bool {
    &&& sel.runs(2) ==> mended(Trouble::Control, s) == s
    &&& sel.runs(1) ==> mended(Trouble::Illegal, s) == s
    &&& sel.runs(8) ==> mended(Trouble::Invisible, s) == s
}

proof fn lemma_is_mended(s: Seq<char>, r: Seq<char>, sel: Selection)
    requires
        is_mended(s, sel),
        forall|t: Trouble| #[trigger] is_free_of(t, s) ==> is_free_of(t, r),
    ensures
        is_mended(r, sel),
        without_trouble(s, sel) == s,
        without_trouble(r, sel) == r,
{
    if sel.runs(2) {
        lemma_mended(Trouble::Control, Trouble::Control, s);
        lemma_mended_free(Trouble::Control, r);
    }
    if sel.runs(1) {
        lemma_mended(Trouble::Illegal, Trouble::Illegal, s);
        lemma_mended_free(Trouble::Illegal, r);
    }
    if sel.runs(8) {
        lemma_mended(Trouble::Invisible, Trouble::Invisible, s);
        lemma_mended_free(Trouble::Invisible, r);
    }
}

/// To sanitize a text without characters to mend is to normalize it and to sanitize
/// the rest.
pub proof fn law_sanitize_after_normalizing(s: Seq<char>, sel: Selection)
    requires
        sel.runs(7),
        is_mended(s, sel),
        !is_one_or_two_dots(s),
        !is_one_or_two_dots(nfc(s)),
    ensures
        sanitized_text(nfc(s), sel) == sanitized_text(s, sel),
{
    lemma_dots(s);
    lemma_dots(nfc(s));
    assert forall|t: Trouble| #[trigger] is_free_of(t, s) implies is_free_of(t, nfc(s)) by {
        lemma_nfc_free(t, s);
    }
    lemma_is_mended(s, nfc(s), sel);
    law_nfc_idempotent(s);
}

/// To sanitize a text in its form is to take the spaces from its start and to
/// sanitize the rest.
pub proof fn law_sanitize_after_start(s: Seq<char>, sel: Selection)
    requires
        sel.runs(4),
        is_mended(s, sel),
        sel.runs(7) ==> nfc(s) == s,
        !is_one_or_two_dots(s),
        !is_one_or_two_dots(trim_start(s)),
    ensures
        sanitized_text(trim_start(s), sel) == sanitized_text(s, sel),
{
    lemma_dots(s);
    lemma_dots(trim_start(s));
    let r = trim_start(s);
    lemma_trim_start(s);
    assert forall|t: Trouble| #[trigger] is_free_of(t, s) implies is_free_of(t, r) by {
        assert forall|i: int| 0 <= i < r.len() implies !is_in(t, #[trigger] r[i]) by {
            assert(r[i] == s[i + (s.len() - r.len())]);
            assert(!is_in(t, s[i + (s.len() - r.len())]));
        }
    }
    lemma_is_mended(s, r, sel);
    if sel.runs(7) {
        lemma_trim_start_nfc(s);
    }
    assert(trim_start(r) == r);
}

/// To sanitize a text in its form, without spaces at its start, is to take the dots
/// and spaces from its end and to sanitize the rest; where nothing is left, it is an
/// underscore.
pub proof fn law_sanitize_after_end(s: Seq<char>, sel: Selection)
    requires
        sel.runs(3),
        is_mended(s, sel),
        sel.runs(7) ==> nfc(s) == s,
        sel.runs(4) ==> trim_start(s) == s,
        !is_one_or_two_dots(s),
        !is_one_or_two_dots(trim_end(s)),
    ensures
        sanitized_text(trim_end(s), sel) == sanitized_text(s, sel),
        trim_end(s).len() == 0 ==> sanitized_text(s, sel) == seq!['_'],
{
    lemma_dots(s);
    lemma_dots(trim_end(s));
    let r = trim_end(s);
    lemma_trim_end(s);
    assert forall|t: Trouble| #[trigger] is_free_of(t, s) implies is_free_of(t, r) by {
        assert forall|i: int| 0 <= i < r.len() implies !is_in(t, #[trigger] r[i]) by {
            assert(r[i] == s[i]);
            assert(!is_in(t, s[i]));
        }
    }
    lemma_is_mended(s, r, sel);
    if sel.runs(7) {
        law_nfc_prefix(s, r.len() as int);
    }
    assert(trim_end(r) == r);
    if sel.runs(4) && r.len() > 0 {
        lemma_trim_start(s);
        assert(r[0] == s[0]);
        if s[0] == ' ' {
            assert(trim_start(s).len() > 0);
        }
        assert(trim_start(r) == r);
    }
    if r.len() == 0 {
        reveal_strlit("_");
        lemma_short_fits(r);
        lemma_device_stem(r);
        if is_reserved(device_stem(r)) {
            lemma_reserved_len(device_stem(r));
        }
        assert("_"@ == seq!['_']);
    }
}

/// To sanitize a text that is in order but for its length is to cut it and to
/// sanitize the rest.
pub proof fn law_sanitize_after_cutting(s: Seq<char>, sel: Selection)
    requires
        sel.runs(9),
        !fits(s),
        is_mended(s, sel),
        sel.runs(7) ==> nfc(s) == s,
        sel.runs(4) ==> trim_start(s) == s,
        sel.runs(3) ==> trim_end(s) == s,
        !is_one_or_two_dots(truncated(s)),
    ensures
        sanitized_text(truncated(s), sel) == sanitized_text(s, sel),
{
    lemma_dots(truncated(s));
    let r = truncated(s);
    law_truncated(s);
    assert forall|t: Trouble| #[trigger] is_free_of(t, s) implies is_free_of(t, r) by {
        lemma_drawn_free(t, r, s);
    }
    lemma_is_mended(s, r, sel);
    if s.len() == 0 {
        lemma_short_fits(s);
    }
    lemma_trim_start(s);
    lemma_trim_end(s);
    if sel.runs(4) {
        assert(s[0] != ' ');
        assert(trim_start(r) == r);
    }
    if sel.runs(3) {
        assert(!is_stripped(s.last()));
        assert(trim_end(r) == r);
    }
    if is_dots(s) {
        reveal_strlit(".");
        reveal_strlit("..");
        lemma_short_fits(s);
    }
}

/// To sanitize a text that is in order but for a device name is to put an underscore
/// behind that; where there is no room for one, to take the last character of the
/// device name away.
pub proof fn law_sanitize_releases(s: Seq<char>, sel: Selection)
    requires
        sel.runs(0),
        is_reserved(device_stem(s)),
        is_mended(s, sel),
        sel.runs(7) ==> nfc(s) == s,
        sel.runs(4) ==> trim_start(s) == s,
        sel.runs(3) ==> trim_end(s) == s,
        sel.runs(9) ==> fits(s),
    ensures
        ({
            let k = device_stem(s).len() as int;
            sanitized_text(s, sel) == if utf8_len(s) < COMPONENT_LIMIT && utf16_units(s)
                < COMPONENT_LIMIT {
                s.take(k) + seq!['_'] + s.skip(k)
            } else {
                s.take(k - 1) + s.skip(k)
            }
        }),
{
    reveal_strlit("_");
    lemma_is_mended(s, s, sel);
    lemma_device_stem(s);
    lemma_reserved_len(device_stem(s));
    let k = device_stem(s).len() as int;
    assert(s.take(k).drop_last() == s.take(k - 1));
    if is_dots(s) {
        reveal_strlit(".");
        reveal_strlit("..");
    }
    assert("_"@ == seq!['_']);
    assert(released(s).len() > 0);
}

// ---------------------------------------------------------------------------
// Names that are taken
// ---------------------------------------------------------------------------
/// A name whose key is free is kept.
pub proof fn law_free_names_are_kept(name: Seq<char>, taken: Seq<Seq<char>>)
    requires
        !taken.contains(casefold(name)),
    ensures
        deduped(name, taken) == name,
{
}

proof fn lemma_first_free(name: Seq<char>, taken: Seq<Seq<char>>, n: nat, i: nat, last: nat)
    requires
        n <= i <= last,
        is_free(candidate(name, i), taken),
        forall|j: nat| n <= j < i ==> !is_free(#[trigger] candidate(name, j), taken),
    ensures
        first_candidate(name, taken, n, last) == candidate(name, i),
    decreases i - n,
{
    if n < i {
        assert(!is_free(candidate(name, n), taken));
        lemma_first_free(name, taken, n + 1, i, last);
    }
}

/// A name whose key is taken gets a dash and a number before its extension: the least
/// number from two on that makes its key free.
pub proof fn law_taken_names_are_numbered(name: Seq<char>, taken: Seq<Seq<char>>, i: nat)
    requires
        taken.contains(casefold(name)),
        2 <= i <= 10 || 2 <= i <= taken.len() + 2,
        forall|j: nat| 2 <= j <= i ==> fits(#[trigger] numbered(name, j)),
        forall|j: nat| 2 <= j < i ==> taken.contains(casefold(#[trigger] numbered(name, j))),
        !taken.contains(casefold(numbered(name, i))),
    ensures
        deduped(name, taken) == stem_of(name) + seq!['-'] + decimal(i) + extension_of(name),
{
    reveal_strlit("-");
    let last = last_number(taken);
    assert(fits(numbered(name, i)));
    assert(is_free(candidate(name, i), taken));
    assert forall|j: nat| 2 <= j < i implies !is_free(#[trigger] candidate(name, j), taken) by {
        assert(fits(numbered(name, j)));
        assert(taken.contains(casefold(numbered(name, j))));
    }
    lemma_first_free(name, taken, 2, i, last);
    assert(has_free_candidate(name, taken, 2, last));
    assert("-"@ == seq!['-']);
}

/// A name whose key is taken gets the least number from two on that makes its key free,
/// once it is cut to fit.
pub proof fn law_numbers_are_least(name: Seq<char>, taken: Seq<Seq<char>>, i: nat)
    requires
        taken.contains(casefold(name)),
        2 <= i <= 10 || 2 <= i <= taken.len() + 2,
        forall|j: nat| 2 <= j < i ==> taken.contains(casefold(#[trigger] candidate(name, j))),
        !taken.contains(casefold(candidate(name, i))),
    ensures
        deduped(name, taken) == candidate(name, i),
{
    let last = last_number(taken);
    assert(is_free(candidate(name, i), taken));
    assert forall|j: nat| 2 <= j < i implies !is_free(#[trigger] candidate(name, j), taken) by {
        assert(taken.contains(casefold(candidate(name, j))));
    }
    lemma_first_free(name, taken, 2, i, last);
    assert(has_free_candidate(name, taken, 2, last));
}

proof fn lemma_kept_key_of(names: Seq<Seq<u8>>, sel: Selection, k: int, key: Seq<char>)
    requires
        0 <= k <= names.len(),
        kept_keys(names, sel, k).contains(key),
    ensures
        exists|j: int| 0 <= j < k && #[trigger] stays(names, sel, j) && key_of(names[j], sel) == key,
    decreases k,
{
    let now = kept_keys(names, sel, k);
    let m = choose|m: int| 0 <= m < now.len() && now[m] == key;
    if k > 0 {
        let before = kept_keys(names, sel, k - 1);
        if m < before.len() {
            assert(before[m] == key);
            lemma_kept_key_of(names, sel, k - 1, key);
        } else {
            assert(stays(names, sel, k - 1));
        }
    }
}

/// A rename is to the sanitized form of the name, unless a name that stays, or an
/// earlier rename, has taken its key.
pub proof fn law_plan_takes_free_names(names: Seq<Seq<u8>>, sel: Selection, b: int)
    requires
        0 <= b < planned(names, sel).len(),
        forall|j: int|
            0 <= j < names.len() && #[trigger] stays(names, sel, j) ==> key_of(names[j], sel)
                != key_of(names[planned(names, sel)[b].0], sel),
        forall|a: int|
            0 <= a < b ==> casefold((#[trigger] planned(names, sel)[a]).1) != key_of(
                names[planned(names, sel)[b].0],
                sel,
            ),
    ensures
        planned(names, sel)[b].1 == sanitized(names[planned(names, sel)[b].0], sel),
{
    let n = names.len() as int;
    lemma_planning(names, sel, n);
    let plan = planned(names, sel);
    let (i, to) = planning(names, sel, n).plan[b];
    let key = key_of(names[i], sel);
    let p = planning(names, sel, i);
    lemma_planning(names, sel, i);
    if p.taken.contains(key) {
        let m = choose|m: int| 0 <= m < p.taken.len() && p.taken[m] == key;
        let kept = kept_keys(names, sel, n);
        if m < kept.len() {
            assert(kept[m] == key);
            lemma_kept_key_of(names, sel, n, key);
        } else {
            let a0 = m - kept.len();
            assert(plan_keys(p.plan)[a0] == key);
            let (j, to0) = p.plan[a0];
            assert(!stays(names, sel, j));
            let a = choose|a: int|
                0 <= a < plan.len() && (#[trigger] planning(names, sel, n).plan[a]).0 == j;
            let (j1, to1) = planning(names, sel, n).plan[a];
            assert(to1 == target(names, sel, j));
            assert(casefold(plan[a].1) == key);
            if a > b {
                assert(planning(names, sel, n).plan[b].0 < planning(names, sel, n).plan[a].0);
            }
            assert(a < b);
        }
    }
}

/// A name stays if, and only if, it is its own sanitized form and, where collisions
/// are looked for, no earlier name of that kind has its key.
pub proof fn law_names_stay(names: Seq<Seq<u8>>, sel: Selection, i: int)
    requires
        0 <= i < names.len(),
    ensures
        stays(names, sel, i) <==> encode_utf8(sanitized(names[i], sel)) == names[i] && !((
        sel.runs(5) || sel.runs(6)) && exists|j: int|
            #![trigger names[j]]
            0 <= j < i && encode_utf8(sanitized(names[j], sel)) == names[j] && casefold(
                sanitized(names[j], sel),
            ) == casefold(sanitized(names[i], sel))),
{
    if is_own(names[i], sel) && (sel.runs(5) || sel.runs(6)) {
        if !stays(names, sel, i) {
            let j = choose|j: int|
                0 <= j < i && #[trigger] is_own(names[j], sel) && key_of(names[j], sel) == key_of(
                    names[i],
                    sel,
                );
            assert(names[j] == names[j]);
        }
        if exists|j: int|
            #![trigger names[j]]
            0 <= j < i && encode_utf8(sanitized(names[j], sel)) == names[j] && casefold(
                sanitized(names[j], sel),
            ) == casefold(sanitized(names[i], sel)) {
            let j = choose|j: int|
                #![trigger names[j]]
                0 <= j < i && encode_utf8(sanitized(names[j], sel)) == names[j] && casefold(
                    sanitized(names[j], sel),
                ) == casefold(sanitized(names[i], sel));
            assert(is_own(names[j], sel));
        }
    }
}

proof fn lemma_first_short_free(name: Seq<char>, taken: Seq<Seq<char>>, n: nat, i: nat, last: nat)
    requires
        n <= i <= last,
        is_free(short_candidate(name, i), taken),
        forall|j: nat| n <= j < i ==> !is_free(#[trigger] short_candidate(name, j), taken),
    ensures
        first_short(name, taken, n, last) == short_candidate(name, i),
    decreases i - n,
{
    if n < i {
        assert(!is_free(short_candidate(name, n), taken));
        lemma_first_short_free(name, taken, n + 1, i, last);
    }
}

/// A name whose key is taken, and which with no number has a free key once it is cut
/// to fit, has its stem cut so that a dash and the number fit behind it: the least
/// number from two on that makes its key free.
pub proof fn law_long_names_are_numbered(name: Seq<char>, taken: Seq<Seq<char>>, i: nat)
    requires
        taken.contains(casefold(name)),
        forall|j: nat|
            2 <= j <= 10 || 2 <= j <= taken.len() + 2 ==> taken.contains(
                casefold(#[trigger] candidate(name, j)),
            ),
        2 <= i <= 10 || 2 <= i <= taken.len() + 2,
        forall|j: nat| 2 <= j < i ==> taken.contains(casefold(#[trigger] short_candidate(name, j))),
        !taken.contains(casefold(short_candidate(name, i))),
    ensures
        ({
            let tail = seq!['-'] + decimal(i) + extension_of(name);
            deduped(name, taken) == fitting(stem_of(name), tail) + tail
        }),
{
    reveal_strlit("-");
    assert("-"@ == seq!['-']);
    let last = last_number(taken);
    assert(!has_free_candidate(name, taken, 2, last)) by {
        if has_free_candidate(name, taken, 2, last) {
            let j = choose|j: nat| 2 <= j <= last && is_free(#[trigger] candidate(name, j), taken);
            assert(taken.contains(casefold(candidate(name, j))));
        }
    }
    assert forall|j: nat| 2 <= j < i implies !is_free(#[trigger] short_candidate(name, j), taken) by {
        assert(taken.contains(casefold(short_candidate(name, j))));
    }
    lemma_first_short_free(name, taken, 2, i, last);
}

// ---------------------------------------------------------------------------
// Reasons
// ---------------------------------------------------------------------------
proof fn lemma_fixing_ids(notes: Seq<Note>, sel: Selection)
    ensures
        fixing_ids(notes, sel) == notes.filter(
            |n: Note| sel.runs_id(n.check.id) && n.fix is Some,
        ).map_values(|n: Note| n.check.id),
    decreases notes.len(),
{
    reveal(Seq::filter);
    let f = |n: Note| sel.runs_id(n.check.id) && n.fix is Some;
    let g = |n: Note| n.check.id;
    if notes.len() == 0 {
        assert(notes.filter(f).map_values(g) == Seq::<Seq<char>>::empty());
    } else {
        let u = notes.drop_last();
        lemma_fixing_ids(u, sel);
        if f(notes.last()) {
            assert(u.filter(f).push(notes.last()).map_values(g) == u.filter(f).map_values(g).push(
                notes.last().check.id,
            ));
        }
    }
}

/// A name is renamed for the checks that are selected, flag it and suggest a name, in
/// the order of the catalog; and if there is none, for a collision.
pub proof fn law_reasons(name: Seq<u8>, sel: Selection)
    ensures
        ({
            let ids = component_notes(name).filter(
                |n: Note| sel.runs_id(n.check.id) && n.fix is Some,
            ).map_values(|n: Note| n.check.id);
            reasons_for(name, sel) == if ids.len() > 0 {
                ids
            } else {
                seq!["NF006/NF007"@]
            }
        }),
{
    lemma_fixing_ids(component_notes(name), sel);
}

} // verus!
