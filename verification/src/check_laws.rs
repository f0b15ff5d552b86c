//! When each check has something to say of a name, and what it suggests.

use vstd::prelude::*;
use vstd::utf8::{decode_utf8, encode_utf8, valid_utf8};

use crate::checks::{
    at_most_one, cloud_reason, component_notes, extension_of, fits, fitting, is_reserved, stem_of,
    text_notes, truncated, mended, Note, Trouble,
};
use crate::fix_laws::{is_free_of, lemma_mended, lemma_mended_free, lemma_split};
use crate::note_laws::note_at;

use crate::rules::{law_ids_are_unique, row, CHECK_COUNT};
use crate::scan_laws::lemma_no_kinds;
use crate::text::{
    begins, is_stripped, lemma_last_dot, lemma_trim_end, lemma_trim_start, occurs, trim_end,
    trim_start, upper_all,
};
use crate::text_laws::law_fits;
use crate::unicode::{fold_all, nfc};
use crate::utf8::{lemma_patched_prefix, lemma_valid_prefix, patched, valid_prefix};

verus! {

// ---------------------------------------------------------------------------
// Which checks speak
// ---------------------------------------------------------------------------
/// The notes of the first `k` checks.
spec fn notes_before(name: Seq<char>, k: int) -> Seq<Note>
    decreases k,
{
    if k <= 0 {
        seq![]
    } else {
        notes_before(name, k - 1) + at_most_one(note_at(k - 1, name))
    }
}

proof fn lemma_notes_before(name: Seq<char>)
    ensures
        text_notes(name) == notes_before(name, 12),
{
    reveal_with_fuel(notes_before, 13);
    let n5 = notes_before(name, 5);
    assert(at_most_one(note_at(5, name)) == Seq::<Note>::empty());
    assert(at_most_one(note_at(6, name)) == Seq::<Note>::empty());
    assert(at_most_one(note_at(10, name)) == Seq::<Note>::empty());
    assert(notes_before(name, 1) == at_most_one(note_at(0, name)));
    assert(notes_before(name, 6) == n5);
    assert(notes_before(name, 7) == n5);
    assert(notes_before(name, 11) == notes_before(name, 10));
}

/// Is a note of an earlier check before one of a later check?
spec fn is_in_order(notes: Seq<Note>, k: int) -> bool {
    &&& forall|m: int|
        0 <= m < notes.len() ==> exists|j: int|
            0 <= j < k && (#[trigger] notes[m]).check == #[trigger] row(j)
    &&& forall|m: int, n: int, i: int, j: int|
        0 <= m < n < notes.len() && 0 <= i < CHECK_COUNT && 0 <= j < CHECK_COUNT && (
        #[trigger] notes[m]).check == #[trigger] row(i) && (#[trigger] notes[n]).check
            == #[trigger] row(j) ==> i < j
}

proof fn lemma_in_order(name: Seq<char>, k: int)
    requires
        0 <= k <= 12,
    ensures
        is_in_order(notes_before(name, k), k),
        forall|j: int|
            0 <= j < k && (#[trigger] note_at(j, name)) is Some ==> notes_before(name, k).contains(
                note_at(j, name)->0,
            ),
    decreases k,
{
    if k > 0 {
        lemma_in_order(name, k - 1);
        let a = notes_before(name, k - 1);
        let b = notes_before(name, k);
        let x = note_at(k - 1, name);
        assert(x is Some ==> (x->0).check == row(k - 1));
        assert forall|m: int| 0 <= m < b.len() implies exists|j: int|
            0 <= j < k && (#[trigger] b[m]).check == #[trigger] row(j) by {
            if m < a.len() {
                assert(b[m] == a[m]);
                let j = choose|j: int| 0 <= j < k - 1 && a[m].check == #[trigger] row(j);
                assert(b[m].check == row(j));
            } else {
                assert(b[m].check == row(k - 1));
            }
        }
        assert forall|m: int, n: int, i: int, j: int|
            0 <= m < n < b.len() && 0 <= i < CHECK_COUNT && 0 <= j < CHECK_COUNT && (
            #[trigger] b[m]).check == #[trigger] row(i) && (#[trigger] b[n]).check
                == #[trigger] row(j) implies i < j by {
            assert(b[m] == a[m]);
            if n < a.len() {
                assert(b[n] == a[n]);
            } else {
                assert(b[n].check == row(k - 1));
                law_ids_are_unique(j, k - 1);
                let l = choose|l: int| 0 <= l < k - 1 && a[m].check == #[trigger] row(l);
                law_ids_are_unique(i, l);
            }
        }
        assert forall|j: int| 0 <= j < k && (#[trigger] note_at(j, name)) is Some implies b.contains(
            note_at(j, name)->0,
        ) by {
            if j < k - 1 {
                let m = choose|m: int| 0 <= m < a.len() && a[m] == note_at(j, name)->0;
                assert(b[m] == note_at(j, name)->0);
            } else {
                assert(b[a.len() as int] == note_at(j, name)->0);
            }
        }
    }
}

/// Of a name that is text, and neither empty nor one or two dots, each check speaks
/// that has something to say, in the order of the catalog, and so no check twice.
pub proof fn law_each_check_speaks(bytes: Seq<u8>)
    requires
        valid_utf8(bytes),
        bytes.len() > 0,
        bytes != seq![0x2Eu8],
        bytes != seq![0x2Eu8, 0x2Eu8],
    ensures
        forall|k: int|
            0 <= k < 12 && (#[trigger] note_at(k, decode_utf8(bytes))) is Some
                ==> component_notes(bytes).contains(note_at(k, decode_utf8(bytes))->0),
        forall|m: int, n: int, i: int, j: int|
            0 <= m < n < component_notes(bytes).len() && 0 <= i < CHECK_COUNT && 0 <= j
                < CHECK_COUNT && (#[trigger] component_notes(bytes)[m]).check == #[trigger] row(i)
                && (#[trigger] component_notes(bytes)[n]).check == #[trigger] row(j) ==> i < j,
{
    reveal(component_notes);
    let name = decode_utf8(bytes);
    lemma_notes_before(name);
    lemma_in_order(name, 12);
}

/// Path syntax is not a name: there is nothing to say of it.
pub proof fn law_syntax_is_passed_over(bytes: Seq<u8>)
    requires
        bytes.len() == 0 || bytes == seq![0x2Eu8] || bytes == seq![0x2Eu8, 0x2Eu8],
    ensures
        component_notes(bytes).len() == 0,
{
    reveal(component_notes);
}

/// Of a name that is no text one thing is said: that it is none, from where on, and
/// what it reads with an underscore for each invalid byte.
pub proof fn law_invalid_names_are_told(bytes: Seq<u8>)
    requires
        !valid_utf8(bytes),
    ensures
        component_notes(bytes).len() == 1,
        component_notes(bytes)[0].check == row(12),
        component_notes(bytes)[0].fix == Some(patched(bytes)),
{
    reveal(component_notes);
    assert(valid_utf8(Seq::<u8>::empty()));
    if bytes.len() == 0 {
        assert(bytes == Seq::<u8>::empty());
    }
    if bytes == seq![0x2Eu8] {
        vstd::utf8::encode_utf8_valid_utf8(seq!['.']);
        lemma_one_dot();
    }
    if bytes == seq![0x2Eu8, 0x2Eu8] {
        vstd::utf8::encode_utf8_valid_utf8(seq!['.', '.']);
        lemma_one_dot();
    }
}

proof fn lemma_one_dot()
    ensures
        encode_utf8(seq!['.']) == seq![0x2Eu8],
        encode_utf8(seq!['.', '.']) == seq![0x2Eu8, 0x2Eu8],
{
    let one = seq!['.'];
    let two = seq!['.', '.'];
    assert(one.drop_first() == Seq::<char>::empty());
    assert(two.drop_first() == one);
    reveal_with_fuel(encode_utf8, 3);
    assert('.' as u32 == 0x2Eu32);
    assert(vstd::utf8::encode_scalar(0x2Eu32) == seq![0x2Eu8]) by {
        assert((0x2Eu32 & 0x7F) as u8 == 0x2Eu8) by (bit_vector);
    }
    assert(encode_utf8(one) == seq![0x2Eu8]);
    assert(encode_utf8(two) == seq![0x2Eu8, 0x2Eu8]);
}

// ---------------------------------------------------------------------------
// What each check looks at
// ---------------------------------------------------------------------------
proof fn lemma_mended_differs(t: Trouble, s: Seq<char>)
    ensures
        is_free_of(t, s) <==> mended(t, s) == s,
{
    if is_free_of(t, s) {
        lemma_mended_free(t, s);
    }
    lemma_mended(t, t, s);
}

/// The checks of single characters flag a name if, and only if, their fix changes it,
/// and that is what they suggest.
pub proof fn law_characters_are_checked(name: Seq<char>)
    ensures
        note_at(1, name) is Some <==> mended(Trouble::Illegal, name) != name,
        note_at(1, name) is Some ==> (note_at(1, name)->0).fix == Some(
            mended(Trouble::Illegal, name),
        ),
        note_at(2, name) is Some <==> mended(Trouble::Control, name) != name,
        note_at(2, name) is Some ==> (note_at(2, name)->0).fix == Some(
            mended(Trouble::Control, name),
        ),
        note_at(8, name) is Some <==> mended(Trouble::Invisible, name) != name,
        note_at(8, name) is Some ==> (note_at(8, name)->0).fix == Some(
            mended(Trouble::Invisible, name),
        ),
{
    lemma_no_kinds(Trouble::Illegal, name);
    lemma_no_kinds(Trouble::Control, name);
    lemma_no_kinds(Trouble::Invisible, name);
    lemma_mended_differs(Trouble::Illegal, name);
    lemma_mended_differs(Trouble::Control, name);
    lemma_mended_differs(Trouble::Invisible, name);
}

/// A name is flagged for its end if, and only if, it ends with a dot or a space; what
/// is suggested is the name without all such characters at its end, or an underscore
/// where nothing is left.
pub proof fn law_ends_are_checked(name: Seq<char>)
    ensures
        note_at(3, name) is Some <==> name.len() > 0 && (name.last() == '.' || name.last() == ' '),
        note_at(3, name) is Some ==> exists|k: int|
            #![trigger name.take(k)]
            0 <= k <= name.len() && (note_at(3, name)->0).fix == Some(
                if k == 0 {
                    seq!['_']
                } else {
                    name.take(k)
                },
            ) && (k > 0 ==> name[k - 1] != '.' && name[k - 1] != ' ') && (forall|i: int|
                k <= i < name.len() ==> #[trigger] name[i] == '.' || name[i] == ' '),
{
    reveal_strlit("_");
    lemma_trim_end(name);
    let t = trim_end(name);
    let k = t.len() as int;
    assert(name.take(k) == t);
    assert forall|i: int| k <= i < name.len() implies #[trigger] name[i] == '.' || name[i]
        == ' ' by {
        assert(is_stripped(name[i]));
    }
    assert("_"@ == seq!['_']);
    if k > 0 {
        assert(t.last() == name[k - 1]);
    }
}

/// A name is flagged for its start if, and only if, it begins with a space; what is
/// suggested is the name without all spaces at its start.
pub proof fn law_starts_are_checked(name: Seq<char>)
    ensures
        note_at(4, name) is Some <==> name.len() > 0 && name[0] == ' ',
        note_at(4, name) is Some ==> exists|k: int|
            #![trigger name.skip(k)]
            0 <= k <= name.len() && (note_at(4, name)->0).fix == Some(name.skip(k)) && (k
                < name.len() ==> name[k] != ' ') && (forall|i: int|
                0 <= i < k ==> #[trigger] name[i] == ' '),
{
    lemma_trim_start(name);
    let k = name.len() - trim_start(name).len();
    assert(name.skip(k) == trim_start(name));
}

/// A name is flagged for its form if, and only if, it is not its own NFC, which is
/// what is suggested; and for its length if, and only if, it takes more than 255 bytes
/// in UTF-8 or more than 255 units in UTF-16.
pub proof fn law_forms_and_lengths_are_checked(name: Seq<char>)
    ensures
        note_at(7, name) is Some <==> nfc(name) != name,
        note_at(7, name) is Some ==> (note_at(7, name)->0).fix == Some(nfc(name)),
        note_at(9, name) is Some <==> encode_utf8(name).len() > 255 || name.len() + name.filter(
            |c: char| c as int > 0xFFFF,
        ).len() > 255,
        note_at(9, name) is Some ==> (note_at(9, name)->0).fix == Some(truncated(name)),
{
    law_fits(name);
}

// ---------------------------------------------------------------------------
// Device names
// ---------------------------------------------------------------------------
/// Are `a` and `b` the same letter, in any case?
pub open spec fn is_letter(a: char, b: char) -> bool {
    a == b || a as int == b as int + 0x20
}

/// Is `stem` that word of three capitals, in any case?
pub open spec fn is_word(stem: Seq<char>, a: char, b: char, c: char) -> bool {
    is_letter(stem[0], a) && is_letter(stem[1], b) && is_letter(stem[2], c)
}

/// The device names are CON, PRN, AUX, NUL, and COM and LPT with a digit or a raised
/// one, two or three, in any case.
pub proof fn law_device_names(stem: Seq<char>)
    ensures
        is_reserved(stem) <==> {
            ||| stem.len() == 3 && (is_word(stem, 'C', 'O', 'N') || is_word(stem, 'P', 'R', 'N')
                || is_word(stem, 'A', 'U', 'X') || is_word(stem, 'N', 'U', 'L'))
            ||| stem.len() == 4 && (is_word(stem, 'C', 'O', 'M') || is_word(stem, 'L', 'P', 'T'))
                && (0x30 <= stem[3] as int <= 0x39 || stem[3] as int == 0xB9 || stem[3] as int
                == 0xB2 || stem[3] as int == 0xB3)
        },
{
    reveal_strlit("CON");
    reveal_strlit("PRN");
    reveal_strlit("AUX");
    reveal_strlit("NUL");
    reveal_strlit("COM");
    reveal_strlit("LPT");
    let up = upper_all(stem);
    assert(up.len() == stem.len());
    if stem.len() == 3 {
        lemma_word(up, "CON"@);
        lemma_word(up, "PRN"@);
        lemma_word(up, "AUX"@);
        lemma_word(up, "NUL"@);
    }
    if stem.len() == 4 {
        lemma_word(up.take(3), "COM"@);
        lemma_word(up.take(3), "LPT"@);
        assert(up.take(3)[0] == up[0] && up.take(3)[1] == up[1] && up.take(3)[2] == up[2]);
    }
}

proof fn lemma_word(s: Seq<char>, t: Seq<char>)
    requires
        s.len() == 3,
        t.len() == 3,
    ensures
        s == t <==> s[0] == t[0] && s[1] == t[1] && s[2] == t[2],
{
    if s[0] == t[0] && s[1] == t[1] && s[2] == t[2] {
        assert(s =~= t);
    }
}

/// A name is flagged as a device name if, and only if, what stands before its first
/// dot, without dots and spaces at the end, is one; what is suggested has an
/// underscore behind that and all else kept.
pub proof fn law_device_stems_are_checked(name: Seq<char>, k: int, n: int)
    requires
        0 <= k <= n <= name.len(),
        forall|i: int| 0 <= i < n ==> #[trigger] name[i] != '.',
        n < name.len() ==> name[n] == '.',
        forall|i: int| k <= i < n ==> #[trigger] name[i] == ' ',
        k > 0 ==> name[k - 1] != ' ',
    ensures
        note_at(0, name) is Some <==> is_reserved(name.take(k)),
        note_at(0, name) is Some ==> (note_at(0, name)->0).fix == Some(
            name.take(k) + seq!['_'] + name.skip(k),
        ),
{
    reveal_strlit("_");
    crate::text::lemma_first_dot_at(name, n);
    let head = name.take(n);
    lemma_trim_end(head);
    let t = trim_end(head);
    if t.len() < k {
        assert(is_stripped(head[k - 1]));
        assert(head[k - 1] == name[k - 1]);
    } else if t.len() > k {
        assert(t.last() == head[t.len() - 1]);
        assert(head[t.len() - 1] == name[t.len() - 1]);
        assert(name[t.len() - 1] == ' ');
    }
    assert(t == name.take(k));
    assert("_"@ == seq!['_']);
}

// ---------------------------------------------------------------------------
// Names that cloud clients reserve
// ---------------------------------------------------------------------------
/// Does `low` hold `_vti_` from `k` on?
pub open spec fn has_vti(low: Seq<char>, k: int) -> bool {
    &&& 0 <= k <= low.len() - 5
    &&& low[k] == '_' && low[k + 1] == 'v' && low[k + 2] == 't' && low[k + 3] == 'i'
    &&& low[k + 4] == '_'
}

proof fn lemma_vti(low: Seq<char>, k: int)
    requires
        0 <= k <= low.len(),
    ensures
        begins(low.skip(k), "_vti_"@) == has_vti(low, k),
{
    reveal_strlit("_vti_");
    let t = low.skip(k);
    if t.len() >= 5 {
        let five = t.take(5);
        assert(five[0] == low[k] && five[1] == low[k + 1] && five[2] == low[k + 2] && five[3]
            == low[k + 3] && five[4] == low[k + 4]);
        if has_vti(low, k) {
            assert(five =~= "_vti_"@);
        }
    }
}

proof fn lemma_lock_prefix(low: Seq<char>)
    ensures
        begins(low, "~$"@) <==> low.len() >= 2 && low[0] == '~' && low[1] == '$',
{
    reveal_strlit("~$");
    if low.len() >= 2 {
        let head = low.take(2);
        assert(head[0] == low[0] && head[1] == low[1]);
        if low[0] == '~' && low[1] == '$' {
            assert(head =~= "~$"@);
        }
    }
}

/// A name is reserved by cloud clients if, in small letters, it is one of six, begins
/// with `~$` or holds `_vti_`.
pub proof fn law_cloud_names(low: Seq<char>)
    ensures
        cloud_reason(low) is Some <==> {
            ||| low == "desktop.ini"@ || low == "thumbs.db"@ || low == ".ds_store"@ || low
                == "icon\r"@ || low == ".dropbox"@ || low == ".dropbox.attr"@
            ||| low.len() >= 2 && low[0] == '~' && low[1] == '$'
            ||| exists|k: int| #[trigger] has_vti(low, k)
        },
{
    lemma_lock_prefix(low);
    if occurs("_vti_"@, low) {
        let k = choose|k: int| 0 <= k <= low.len() && #[trigger] begins(low.skip(k), "_vti_"@);
        lemma_vti(low, k);
    }
    if exists|k: int| #[trigger] has_vti(low, k) {
        let k = choose|k: int| #[trigger] has_vti(low, k);
        lemma_vti(low, k);
    }
}

/// Why cloud clients refuse or skip a name: those that each of them has by name, then
/// lock files by their prefix, and what SharePoint keeps for itself.
pub proof fn law_cloud_reasons(low: Seq<char>)
    ensures
        low == "desktop.ini"@ ==> cloud_reason(low) == Some(
            "rejected by OneDrive and silently skipped by Dropbox"@,
        ),
        low == "thumbs.db"@ ==> cloud_reason(low) == Some("silently skipped by Dropbox"@),
        low == ".ds_store"@ || low == "icon\r"@ ==> cloud_reason(low) == Some(
            "macOS metadata; silently skipped by Dropbox"@,
        ),
        low == ".dropbox"@ || low == ".dropbox.attr"@ ==> cloud_reason(low) == Some(
            "reserved by the Dropbox client itself"@,
        ),
        low.len() >= 2 && low[0] == '~' && low[1] == '$' ==> cloud_reason(low) == Some(
            "Office lock-file prefix; skipped by OneDrive and Dropbox"@,
        ),
        low.len() > 13 && low[0] != '~' && (exists|k: int| #[trigger] has_vti(low, k))
            ==> cloud_reason(low) == Some("rejected by OneDrive/SharePoint"@),
{
    reveal_strlit("desktop.ini");
    reveal_strlit("thumbs.db");
    reveal_strlit(".ds_store");
    reveal_strlit("icon\r");
    reveal_strlit(".dropbox");
    reveal_strlit(".dropbox.attr");
    assert("desktop.ini"@.len() == 11 && "thumbs.db"@.len() == 9 && ".ds_store"@.len() == 9
        && "icon\r"@.len() == 5 && ".dropbox"@.len() == 8 && ".dropbox.attr"@.len() == 13);
    assert("desktop.ini"@[0] == 'd' && "thumbs.db"@[0] == 't' && ".ds_store"@[0] == '.'
        && "icon\r"@[0] == 'i' && ".dropbox"@[0] == '.' && ".dropbox.attr"@[0] == '.');
    lemma_lock_prefix(low);
    if exists|k: int| #[trigger] has_vti(low, k) {
        let k = choose|k: int| #[trigger] has_vti(low, k);
        lemma_vti(low, k);
    }
}

/// Whether cloud clients reserve a name does not depend on the case of its letters,
/// and nothing is suggested for it.
pub proof fn law_cloud_names_ignore_case(a: Seq<char>, b: Seq<char>)
    requires
        fold_all(a) == fold_all(b),
    ensures
        note_at(11, a) is Some <==> note_at(11, b) is Some,
        note_at(11, a) is Some <==> cloud_reason(fold_all(a)) is Some,
        note_at(11, a) is Some ==> (note_at(11, a)->0).fix is None,
{
}

// ---------------------------------------------------------------------------
// Cutting
// ---------------------------------------------------------------------------
/// An extension begins at the last dot of a name, unless that is its first character
/// or more than sixteen characters from its end.
pub proof fn law_extensions(name: Seq<char>, k: int)
    requires
        0 <= k < name.len(),
        name[k] == '.',
        forall|i: int| k < i < name.len() ==> #[trigger] name[i] != '.',
    ensures
        stem_of(name) + extension_of(name) == name,
        extension_of(name) == if k > 0 && name.len() - k <= 16 {
            name.skip(k)
        } else {
            seq![]
        },
{
    lemma_split(name);
    lemma_last_dot(name);
    assert(crate::text::last_dot(name) == k);
    assert(name.skip(name.len() as int) == Seq::<char>::empty());
}

/// A name without a dot has no extension.
pub proof fn law_no_extension(name: Seq<char>)
    requires
        forall|i: int| 0 <= i < name.len() ==> #[trigger] name[i] != '.',
    ensures
        stem_of(name) == name,
        extension_of(name) == Seq::<char>::empty(),
{
    lemma_last_dot(name);
    assert(name.take(name.len() as int) == name);
    assert(name.skip(name.len() as int) == Seq::<char>::empty());
}

/// A stem is cut no more than it has to be: it is a prefix that fits together with
/// what stands behind it, or nothing, and no longer prefix fits.
pub proof fn law_stems_are_cut_little(stem: Seq<char>, tail: Seq<char>)
    ensures
        fitting(stem, tail).len() <= stem.len(),
        fitting(stem, tail) == stem.take(fitting(stem, tail).len() as int),
        fitting(stem, tail).len() > 0 ==> fits(fitting(stem, tail) + tail),
        forall|k: int|
            fitting(stem, tail).len() < k <= stem.len() ==> !fits(#[trigger] stem.take(k) + tail),
    decreases stem.len(),
{
    if stem.len() == 0 || fits(stem + tail) {
        assert(stem.take(stem.len() as int) == stem);
    } else {
        let u = stem.drop_last();
        law_stems_are_cut_little(u, tail);
        let n = fitting(u, tail).len() as int;
        assert(u.take(n) == stem.take(n));
        assert forall|k: int| n < k <= stem.len() implies !fits(#[trigger] stem.take(k) + tail) by {
            if k < stem.len() {
                assert(stem.take(k) == u.take(k));
            } else {
                assert(stem.take(k) == stem);
            }
        }
    }
}

/// A name that is cut keeps its extension and as much of its stem as fits, but for
/// dots and spaces that the cut would leave before the extension.
pub proof fn law_cut_names(name: Seq<char>)
    ensures
        ({
            let fit = fitting(stem_of(name), extension_of(name));
            let n = trim_end(fit).len() as int;
            &&& n <= fit.len()
            &&& forall|i: int| n <= i < fit.len() ==> is_stripped(#[trigger] fit[i])
            &&& n > 0 ==> !is_stripped(fit[n - 1])
            &&& n > 0 || extension_of(name).len() > 0 ==> truncated(name) == fit.take(n)
                + extension_of(name)
            &&& n == 0 && extension_of(name).len() == 0 ==> truncated(name) == seq!['_']
        }),
{
    reveal_strlit("_");
    let fit = fitting(stem_of(name), extension_of(name));
    lemma_trim_end(fit);
    let n = trim_end(fit).len() as int;
    if n > 0 {
        assert(trim_end(fit).last() == fit[n - 1]);
    }
    assert("_"@ == seq!['_']);
}

/// Bytes stop being text where what comes next is no character: all before is text.
pub proof fn law_first_invalid_byte(bytes: Seq<u8>)
    ensures
        valid_prefix(bytes) <= bytes.len(),
        valid_utf8(bytes.take(valid_prefix(bytes) as int)),
        valid_prefix(bytes) < bytes.len() ==> !vstd::utf8::valid_first_scalar(
            bytes.skip(valid_prefix(bytes) as int),
        ),
        valid_utf8(bytes) <==> valid_prefix(bytes) == bytes.len(),
{
    lemma_valid_prefix(bytes);
    lemma_patched_prefix(bytes);
    if valid_prefix(bytes) == bytes.len() {
        assert(bytes.take(bytes.len() as int) == bytes);
    }
    if valid_utf8(bytes) {
        lemma_all_valid(bytes);
    }
}

proof fn lemma_all_valid(bytes: Seq<u8>)
    requires
        valid_utf8(bytes),
    ensures
        valid_prefix(bytes) == bytes.len(),
    decreases bytes.len(),
{
    if bytes.len() > 0 {
        lemma_all_valid(vstd::utf8::pop_first_scalar(bytes));
    }
}

} // verus!
