//! What scans satisfy: what is reported, how often, and in what order.

use vstd::prelude::*;
use vstd::utf8::{decode_utf8, valid_utf8};

use crate::checks::{
    clash_at, clash_note, clashes, component_notes, control_note, count_in, display, first_with,
    has_key, illegal_note, invisible_note, is_control, is_in, is_invisible, kinds_in, leading_note,
    length_note, lemma_first_with, non_nfc_note, reserved_note, shown_byte, shown_bytes, shown_char,
    shown_text, text_notes, trailing_note, Clash, Note, Trouble,
};
use crate::engine::{
    bound, clash_reports, listing_reports, name_reports, names_reports, Report, Selection,
};
use crate::fix_laws::{is_clean, is_free_of, law_clean_names_stay, law_sanitized_is_clean};
use crate::fixname::{depth, is_dots, sanitized_text, Move};
use crate::note_laws::lemma_note_of_check;
use crate::numerals::{digit, lemma_quotient, numeral};
use crate::order::{arranged, law_arranged, Ranked};
use crate::rules::{law_ids_are_unique, row, CHECK_COUNT};
use crate::unicode::{casefold, nfc, utf16_units};
use crate::walker::path_in;

verus! {

// ---------------------------------------------------------------------------
// Collisions
// ---------------------------------------------------------------------------
/// A name is reported as colliding if, and only if, an earlier one has its key:
/// then once, against the first name with that key, which is not itself reported.
pub proof fn law_collisions_are_reported(names: Seq<Seq<u8>>, i: int)
    requires
        0 <= i < names.len(),
    ensures
        clash_at(names, i).len() <= 1,
        clash_at(names, i).len() == 1 <==> valid_utf8(names[i]) && exists|j: int|
            0 <= j < i && #[trigger] has_key(names, j, casefold(decode_utf8(names[i]))),
        clash_at(names, i).len() == 1 ==> {
            let c = clash_at(names, i)[0];
            let key = casefold(decode_utf8(names[i]));
            &&& c.index == i
            &&& 0 <= c.first_index < i
            &&& has_key(names, c.first_index, key)
            &&& forall|j: int| 0 <= j < c.first_index ==> !#[trigger] has_key(names, j, key)
            &&& clash_at(names, c.first_index).len() == 0
        },
{
    let key = casefold(decode_utf8(names[i]));
    lemma_first_with(names, key, i);
    let f = first_with(names, key, i);
    if f >= 0 {
        assert(has_key(names, f, key));
        lemma_first_with(names, key, f);
    }
}

/// A collision of names that are equal in NFC is a normalization collision; any
/// other is a case collision. Neither carries a fix.
pub proof fn law_collisions_are_told_apart(this: Seq<u8>, first: Seq<u8>)
    ensures
        clash_note(this, first).check == row(
            if nfc(decode_utf8(this)) == nfc(decode_utf8(first)) {
                6
            } else {
                5
            },
        ),
        clash_note(this, first).fix is None,
{
    reveal(clash_note);
}

// ---------------------------------------------------------------------------
// Path lengths
// ---------------------------------------------------------------------------
/// The checks of a single name never report the length of a path.
proof fn lemma_component_checks(bytes: Seq<u8>, i: int)
    requires
        0 <= i < component_notes(bytes).len(),
    ensures
        component_notes(bytes)[i].check.id != row(10).id,
{
    reveal(component_notes);
    let n = component_notes(bytes)[i];
    if valid_utf8(bytes) {
        let name = decode_utf8(bytes);
        assert(text_notes(name).contains(n));
        let k = lemma_note_of_check(name, n);
        if row(k).id == row(10).id {
            law_ids_are_unique(k, 10);
        }
    } else if row(12).id == row(10).id {
        law_ids_are_unique(12, 10);
    }
}

/// What is bound to a path comes of the notes.
proof fn lemma_bound_from(path: Seq<char>, notes: Seq<Note>, sel: Selection, i: int)
    requires
        0 <= i < bound(path, notes, sel).len(),
    ensures
        exists|j: int|
            0 <= j < notes.len() && (#[trigger] notes[j]).check == bound(path, notes, sel)[i].check
                && notes[j].fix == bound(path, notes, sel)[i].fix && notes[j].message == bound(
                path,
                notes,
                sel,
            )[i].message,
        bound(path, notes, sel)[i].path == path,
        sel.runs_id(bound(path, notes, sel)[i].check.id),
    decreases notes.len(),
{
    let u = notes.drop_last();
    let before = bound(path, u, sel);
    if i < before.len() {
        lemma_bound_from(path, u, sel, i);
        let j = choose|j: int|
            0 <= j < u.len() && (#[trigger] u[j]).check == before[i].check && u[j].fix
                == before[i].fix && u[j].message == before[i].message;
        assert(notes[j] == u[j]);
    } else {
        assert(notes[notes.len() - 1] == notes.last());
    }
}

/// Is no report in `s` about the length of a path?
pub open spec fn is_free_of_lengths(s: Seq<Report>) -> bool {
    forall|i: int| 0 <= i < s.len() ==> (#[trigger] s[i]).check.id != row(10).id
}

proof fn lemma_names_without_lengths(
    dir: Seq<char>,
    names: Seq<Seq<u8>>,
    sel: Selection,
    k: int,
)
    requires
        utf16_units(dir) > sel.max_path,
    ensures
        is_free_of_lengths(names_reports(dir, names, sel, k)),
    decreases k,
{
    if k > 0 {
        lemma_names_without_lengths(dir, names, sel, k - 1);
        let before = names_reports(dir, names, sel, k - 1);
        let name = names[k - 1];
        let now = name_reports(dir, name, sel);
        let own = bound(path_in(dir, name), component_notes(name), sel);
        assert(now == own + Seq::<Report>::empty());
        assert forall|i: int| 0 <= i < now.len() implies (#[trigger] now[i]).check.id != row(
            10,
        ).id by {
            assert(now[i] == own[i]);
            lemma_bound_from(path_in(dir, name), component_notes(name), sel, i);
            let j = choose|j: int|
                0 <= j < component_notes(name).len() && (#[trigger] component_notes(name)[j]).check
                    == own[i].check && component_notes(name)[j].fix == own[i].fix
                    && component_notes(name)[j].message == own[i].message;
            lemma_component_checks(name, j);
        }
    }
}

proof fn lemma_clashes_without_lengths(
    dir: Seq<char>,
    names: Seq<Seq<u8>>,
    hits: Seq<Clash>,
    sel: Selection,
)
    requires
        forall|i: int|
            0 <= i < hits.len() ==> (#[trigger] hits[i]).note.check == row(5)
                || hits[i].note.check == row(6),
    ensures
        is_free_of_lengths(clash_reports(dir, names, hits, sel)),
    decreases hits.len(),
{
    if hits.len() > 0 {
        let u = hits.drop_last();
        assert forall|i: int| 0 <= i < u.len() implies (#[trigger] u[i]).note.check == row(5)
            || u[i].note.check == row(6) by {
            assert(u[i] == hits[i]);
        }
        lemma_clashes_without_lengths(dir, names, u, sel);
        let h = hits[hits.len() - 1];
        let path = path_in(dir, names[h.index]);
        let now = bound(path, seq![h.note], sel);
        assert forall|i: int| 0 <= i < now.len() implies (#[trigger] now[i]).check.id != row(
            10,
        ).id by {
            lemma_bound_from(path, seq![h.note], sel, i);
            if row(5).id == row(10).id {
                law_ids_are_unique(5, 10);
            }
            if row(6).id == row(10).id {
                law_ids_are_unique(6, 10);
            }
        }
    }
}

proof fn lemma_clash_checks(names: Seq<Seq<u8>>, k: int)
    ensures
        forall|i: int|
            0 <= i < clashes(names, k).len() ==> (#[trigger] clashes(names, k)[i]).note.check
                == row(5) || clashes(names, k)[i].note.check == row(6),
    decreases k,
{
    if k > 0 {
        lemma_clash_checks(names, k - 1);
        let f = first_with(names, casefold(decode_utf8(names[k - 1])), k - 1);
        law_collisions_are_told_apart(names[k - 1], names[f]);
    }
}

/// Where a directory is over the path budget itself, the lengths of the paths in it
/// are not reported: they are implied.
pub proof fn law_descendants_are_implied(dir: Seq<char>, names: Seq<Seq<u8>>, sel: Selection)
    requires
        utf16_units(dir) > sel.max_path,
    ensures
        is_free_of_lengths(listing_reports(dir, names, sel)),
{
    let n = names.len() as int;
    lemma_names_without_lengths(dir, names, sel, n);
    lemma_clash_checks(names, n);
    lemma_clashes_without_lengths(dir, names, clashes(names, n), sel);
}

// ---------------------------------------------------------------------------
// Showing
// ---------------------------------------------------------------------------
/// Is `c` visible when printed?
pub open spec fn is_visible(c: char) -> bool {
    !is_control(c) && !is_invisible(c)
}

proof fn lemma_digits_are_visible(n: nat, width: nat)
    ensures
        forall|i: int|
            0 <= i < numeral(n, 16, width, true).len() ==> is_visible(
                #[trigger] numeral(n, 16, width, true)[i],
            ),
    decreases n + width,
{
    lemma_quotient(n, 16);
    let s = numeral(n, 16, width, true);
    if n >= 16 || width > 1 {
        let less = if width == 0 {
            0nat
        } else {
            (width - 1) as nat
        };
        lemma_digits_are_visible(n / 16, less);
        let head = numeral(n / 16, 16, less, true);
        assert(s == head.push(digit(n % 16, true)));
        assert forall|i: int| 0 <= i < s.len() implies is_visible(#[trigger] s[i]) by {
            if i < head.len() {
                assert(s[i] == head[i]);
            }
        }
    } else {
        assert(s == seq![digit(n, true)]);
    }
}

proof fn lemma_shown_char(c: char)
    ensures
        forall|i: int| 0 <= i < shown_char(c).len() ==> is_visible(#[trigger] shown_char(c)[i]),
{
    reveal_strlit("<");
    reveal_strlit(">");
    reveal_strlit("U+");
    lemma_digits_are_visible(c as nat, 4);
}

proof fn lemma_shown_byte(b: u8)
    ensures
        forall|i: int| 0 <= i < shown_byte(b).len() ==> is_visible(#[trigger] shown_byte(b)[i]),
{
    reveal_strlit("<0x");
    reveal_strlit(">");
    lemma_digits_are_visible(b as nat, 2);
}

proof fn lemma_shown_text(s: Seq<char>)
    ensures
        forall|i: int| 0 <= i < shown_text(s).len() ==> is_visible(#[trigger] shown_text(s)[i]),
    decreases s.len(),
{
    if s.len() > 0 {
        lemma_shown_text(s.drop_last());
        lemma_shown_char(s.last());
        let a = shown_text(s.drop_last());
        let b = shown_char(s.last());
        assert forall|i: int| 0 <= i < shown_text(s).len() implies is_visible(
            #[trigger] shown_text(s)[i],
        ) by {
            if i < a.len() {
                assert(is_visible(a[i]));
            } else {
                assert(is_visible(b[i - a.len()]));
            }
        }
    }
}

proof fn lemma_shown_bytes(s: Seq<u8>)
    ensures
        forall|i: int| 0 <= i < shown_bytes(s).len() ==> is_visible(#[trigger] shown_bytes(s)[i]),
    decreases s.len(),
{
    if s.len() > 0 {
        lemma_shown_bytes(s.drop_last());
        lemma_shown_byte(s.last());
        let a = shown_bytes(s.drop_last());
        let b = shown_byte(s.last());
        assert forall|i: int| 0 <= i < shown_bytes(s).len() implies is_visible(
            #[trigger] shown_bytes(s)[i],
        ) by {
            if i < a.len() {
                assert(is_visible(a[i]));
            } else {
                assert(is_visible(b[i - a.len()]));
            }
        }
    }
}

/// A displayed name holds no control character and no invisible one.
pub proof fn law_display_is_visible(bytes: Seq<u8>)
    ensures
        forall|i: int| 0 <= i < display(bytes).len() ==> is_visible(#[trigger] display(bytes)[i]),
{
    if valid_utf8(bytes) {
        lemma_shown_text(decode_utf8(bytes));
    } else {
        lemma_shown_bytes(bytes);
    }
}

// ---------------------------------------------------------------------------
// Checks and fixes
// ---------------------------------------------------------------------------
pub proof fn lemma_no_kinds(t: Trouble, s: Seq<char>)
    ensures
        kinds_in(t, s).len() == 0 <==> is_free_of(t, s),
        count_in(t, s) == 0 <==> is_free_of(t, s),
    decreases s.len(),
{
    if s.len() > 0 {
        let u = s.drop_last();
        lemma_no_kinds(t, u);
        assert(is_free_of(t, s) ==> is_free_of(t, u)) by {
            if is_free_of(t, s) {
                assert forall|i: int| 0 <= i < u.len() implies !is_in(t, #[trigger] u[i]) by {
                    assert(u[i] == s[i]);
                }
            }
        }
        assert(is_free_of(t, u) && !is_in(t, s.last()) ==> is_free_of(t, s)) by {
            if is_free_of(t, u) && !is_in(t, s.last()) {
                assert forall|i: int| 0 <= i < s.len() implies !is_in(t, #[trigger] s[i]) by {
                    if i < u.len() {
                        assert(s[i] == u[i]);
                    }
                }
            }
        }
        assert(is_free_of(t, s) ==> !is_in(t, s[s.len() - 1]));
    }
}

/// Does every check run?
pub open spec fn runs_all(sel: Selection) -> bool {
    forall|k: int| 0 <= k < CHECK_COUNT ==> #[trigger] sel.runs(k)
}

/// Does no check with a fix have anything to say of the text `name`?
pub open spec fn is_unflagged(name: Seq<char>) -> bool {
    &&& reserved_note(name) is None
    &&& illegal_note(name) is None
    &&& control_note(name) is None
    &&& trailing_note(name) is None
    &&& leading_note(name) is None
    &&& non_nfc_note(name) is None
    &&& invisible_note(name) is None
    &&& length_note(name) is None
}

/// The checks and the fixes agree: no check with a fix has anything to say of a
/// text exactly where the fixes have nothing to do on it.
pub proof fn law_checks_and_fixes_agree(name: Seq<char>, sel: Selection)
    requires
        runs_all(sel),
        name.len() > 0,
    ensures
        is_unflagged(name) <==> is_clean(name, sel),
{
    lemma_no_kinds(Trouble::Illegal, name);
    lemma_no_kinds(Trouble::Control, name);
    lemma_no_kinds(Trouble::Invisible, name);
    assert(sel.runs(0) && sel.runs(1) && sel.runs(2) && sel.runs(3) && sel.runs(4) && sel.runs(7)
        && sel.runs(8) && sel.runs(9));
}

/// A text that no check with a fix flags stays as it is.
pub proof fn law_unflagged_names_stay(name: Seq<char>, sel: Selection)
    requires
        runs_all(sel),
        name.len() > 0,
        is_unflagged(name),
    ensures
        sanitized_text(name, sel) == name,
{
    law_checks_and_fixes_agree(name, sel);
    law_clean_names_stay(name, sel);
}

/// No check with a fix flags a sanitized text, unless it was path syntax.
pub proof fn law_sanitized_is_unflagged(name: Seq<char>, sel: Selection)
    requires
        runs_all(sel),
        !is_dots(name),
    ensures
        is_unflagged(sanitized_text(name, sel)),
{
    law_sanitized_is_clean(name, sel);
    law_checks_and_fixes_agree(sanitized_text(name, sel), sel);
}

// ---------------------------------------------------------------------------
// Order of renames
// ---------------------------------------------------------------------------
/// A path within another is at least as deep.
proof fn lemma_depth_grows(path: Seq<char>, k: int)
    requires
        0 <= k <= path.len(),
    ensures
        depth(path.take(k)) <= depth(path),
    decreases path.len(),
{
    if k == path.len() {
        assert(path.take(k) == path);
    } else {
        lemma_depth_grows(path.drop_last(), k);
        assert(path.drop_last().take(k) == path.take(k));
    }
}

/// What is inside a directory is deeper than the directory's parent: `inner` is
/// the display path of the directory `name` in `dir`, or one that begins with it.
pub proof fn law_inside_is_deeper(dir: Seq<char>, name: Seq<char>, inner: Seq<char>)
    requires
        name.len() > 0,
        name[0] != '/',
        ({
            let at = if dir.len() == 0 {
                name
            } else {
                dir + "/"@ + name
            };
            at.len() <= inner.len() && inner.take(at.len() as int) == at
        }),
    ensures
        depth(inner) > depth(dir),
{
    reveal_strlit("/");
    let at = if dir.len() == 0 {
        name
    } else {
        dir + "/"@ + name
    };
    let k = if dir.len() == 0 {
        1int
    } else {
        (dir.len() + 2) as int
    };
    let head = inner.take(k);
    assert(head == at.take(k)) by {
        assert(inner.take(at.len() as int).take(k) == inner.take(k));
    }
    lemma_depth_grows(inner, k);
    assert(head.last() == name[0]);
    if dir.len() > 0 {
        assert(head[k - 2] == '/');
        assert(head.drop_last().drop_last() == dir);
        lemma_depth_grows(head.drop_last(), dir.len() as int);
        assert(head.drop_last().take(dir.len() as int) == dir);
    } else {
        assert(head.drop_last() == dir);
    }
}

/// In a plan, what is inside a directory is renamed before the directory: a later
/// rename is never deeper than an earlier one.
pub proof fn law_plan_is_deepest_first(moves: Seq<Move>, i: int, j: int)
    requires
        0 <= i < j < moves.len(),
    ensures
        depth(arranged(moves)[i].dir) >= depth(arranged(moves)[j].dir),
{
    law_arranged(moves);
    assert(arranged(moves)[i].leq(arranged(moves)[j]));
}

} // verus!
