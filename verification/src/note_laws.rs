//! A suggested name is free of the problem that it was suggested for.

use vstd::prelude::*;
use vstd::utf8::{
    decode_utf8, encode_utf8, encode_utf8_decode_utf8, encode_utf8_valid_utf8, valid_utf8,
};

use crate::checks::{
    at_most_one, cloud_note, component_notes, control_note, device_stem, illegal_note, invalid_note,
    invisible_note, is_reserved, leading_note, length_note, non_nfc_note, reserved_note, text_notes,
    trailing_note, Note, Trouble,
};
use crate::fix_laws::{
    law_truncated, lemma_device_stem_of, lemma_mended, lemma_released_stem, lemma_reserved_chars,
};
use crate::fixname::lemma_reserved_len;
use crate::rules::{law_ids_are_unique, row};
use crate::scan_laws::lemma_no_kinds;
use crate::text::{is_stripped, lemma_trim_end, lemma_trim_start};
use crate::unicode_laws::law_nfc_idempotent;

verus! {

/// What the check in the `k`-th entry of the catalog says of a text.
pub open spec fn note_at(k: int, name: Seq<char>) -> Option<Note> {
    if k == 0 {
        reserved_note(name)
    } else if k == 1 {
        illegal_note(name)
    } else if k == 2 {
        control_note(name)
    } else if k == 3 {
        trailing_note(name)
    } else if k == 4 {
        leading_note(name)
    } else if k == 7 {
        non_nfc_note(name)
    } else if k == 8 {
        invisible_note(name)
    } else if k == 9 {
        length_note(name)
    } else if k == 11 {
        cloud_note(name)
    } else {
        None
    }
}

proof fn lemma_in_concat(a: Seq<Note>, n: Option<Note>, x: Note)
    ensures
        (a + at_most_one(n)).contains(x) ==> a.contains(x) || n == Some(x),
{
    let s = a + at_most_one(n);
    if s.contains(x) {
        let i = choose|i: int| 0 <= i < s.len() && s[i] == x;
        if i < a.len() {
            assert(a[i] == x);
        }
    }
}

/// A note on a text is that of one of the checks.
pub proof fn lemma_note_of_check(name: Seq<char>, x: Note) -> (k: int)
    requires
        text_notes(name).contains(x),
    ensures
        0 <= k < 12,
        note_at(k, name) == Some(x),
        x.check == row(k),
{
    let a0 = Seq::<Note>::empty();
    let a1 = at_most_one(reserved_note(name));
    let a2 = a1 + at_most_one(illegal_note(name));
    let a3 = a2 + at_most_one(control_note(name));
    let a4 = a3 + at_most_one(trailing_note(name));
    let a5 = a4 + at_most_one(leading_note(name));
    let a6 = a5 + at_most_one(non_nfc_note(name));
    let a7 = a6 + at_most_one(invisible_note(name));
    let a8 = a7 + at_most_one(length_note(name));
    assert(a0 + at_most_one(reserved_note(name)) == a1);
    lemma_in_concat(a0, reserved_note(name), x);
    lemma_in_concat(a1, illegal_note(name), x);
    lemma_in_concat(a2, control_note(name), x);
    lemma_in_concat(a3, trailing_note(name), x);
    lemma_in_concat(a4, leading_note(name), x);
    lemma_in_concat(a5, non_nfc_note(name), x);
    lemma_in_concat(a6, invisible_note(name), x);
    lemma_in_concat(a7, length_note(name), x);
    lemma_in_concat(a8, cloud_note(name), x);
    if reserved_note(name) == Some(x) {
        0
    } else if illegal_note(name) == Some(x) {
        1
    } else if control_note(name) == Some(x) {
        2
    } else if trailing_note(name) == Some(x) {
        3
    } else if leading_note(name) == Some(x) {
        4
    } else if non_nfc_note(name) == Some(x) {
        7
    } else if invisible_note(name) == Some(x) {
        8
    } else if length_note(name) == Some(x) {
        9
    } else {
        11
    }
}

/// An underscore behind a device name frees the text from it.
proof fn lemma_reserved_fix(name: Seq<char>)
    requires
        is_reserved(device_stem(name)),
    ensures
        !is_reserved(
            device_stem(device_stem(name) + "_"@ + name.skip(device_stem(name).len() as int)),
        ),
{
    reveal_strlit("_");
    let stem = device_stem(name);
    let a = stem.push('_');
    lemma_reserved_len(stem);
    assert forall|i: int| 0 <= i < a.len() implies !is_stripped(#[trigger] a[i]) by {
        if i < stem.len() {
            lemma_reserved_chars(stem, i);
        }
    }
    lemma_device_stem_of(name, a);
    lemma_released_stem(stem);
    assert(stem + "_"@ == a);
}

/// The fix of a check leaves that check with nothing to say.
pub proof fn law_fixes_solve_their_problem(k: int, name: Seq<char>)
    requires
        note_at(k, name) is Some,
        note_at(k, name)->0.fix is Some,
    ensures
        note_at(k, note_at(k, name)->0.fix->0) is None,
{
    let fixed = note_at(k, name)->0.fix->0;
    if k == 0 {
        lemma_reserved_fix(name);
    } else if k == 1 {
        lemma_mended(Trouble::Illegal, Trouble::Illegal, name);
        lemma_no_kinds(Trouble::Illegal, fixed);
    } else if k == 2 {
        lemma_mended(Trouble::Control, Trouble::Control, name);
        lemma_no_kinds(Trouble::Control, fixed);
    } else if k == 3 {
        reveal_strlit("_");
        lemma_trim_end(name);
    } else if k == 4 {
        lemma_trim_start(name);
    } else if k == 7 {
        law_nfc_idempotent(name);
    } else if k == 8 {
        lemma_mended(Trouble::Invisible, Trouble::Invisible, name);
        lemma_no_kinds(Trouble::Invisible, fixed);
    } else if k == 9 {
        law_truncated(name);
    }
}

/// A suggested name is free of the problem that it was suggested for: nothing that
/// there is to say of it is of the check that suggested it.
pub proof fn law_suggestions_are_free(bytes: Seq<u8>, i: int, j: int)
    requires
        0 <= i < component_notes(bytes).len(),
        component_notes(bytes)[i].fix is Some,
        0 <= j < component_notes(encode_utf8(component_notes(bytes)[i].fix->0)).len(),
    ensures
        component_notes(encode_utf8(component_notes(bytes)[i].fix->0))[j].check.id
            != component_notes(bytes)[i].check.id,
{
    reveal(component_notes);
    let x = component_notes(bytes)[i];
    let fixed = x.fix->0;
    let y = component_notes(encode_utf8(fixed))[j];
    encode_utf8_valid_utf8(fixed);
    encode_utf8_decode_utf8(fixed);
    assert(text_notes(fixed).contains(y));
    let m = lemma_note_of_check(fixed, y);
    if valid_utf8(bytes) {
        let name = decode_utf8(bytes);
        assert(text_notes(name).contains(x));
        let k = lemma_note_of_check(name, x);
        if row(m).id == row(k).id {
            law_ids_are_unique(m, k);
            law_fixes_solve_their_problem(k, name);
        }
    } else {
        assert(x == invalid_note(bytes));
        if row(m).id == row(12).id {
            law_ids_are_unique(m, 12);
        }
    }
}

} // verus!
