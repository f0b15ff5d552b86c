//! What messages, summaries and complaints say.

use vstd::prelude::*;
use vstd::utf8::{decode_utf8, encode_utf8, valid_utf8};

use crate::checks::{
    clash_note, component_notes, device_stem, display, kinds_in, mended, path_note, trouble_labels,
    Trouble,
};

use crate::engine::{is_tally, Report, Stats};
use crate::fixname::Move;
use crate::mend_laws::{lemma_contains_push, law_kinds_are_listed_once, law_trouble_is_counted};
use crate::note_laws::note_at;
use crate::numerals::{decimal, numeral};
use crate::report::{finding_line, joined, summary, text_plan, text_report, FailOn};
use crate::rules::{row, Severity, Target};
use crate::text::{lemma_utf8_len, upper_all};
use crate::text_laws::{
    law_findings_are_printed, law_renames_are_printed, law_severities_are_counted,
    law_text_is_shown, law_utf16_units, seen,
};
use crate::unicode::{nfc, utf16_units};
use crate::utf8::valid_prefix;

verus! {

// ---------------------------------------------------------------------------
// Characters in trouble
// ---------------------------------------------------------------------------
/// How a character in trouble is named.
pub open spec fn named(t: Trouble, c: char) -> Seq<char> {
    let code = seq!['U', '+'] + numeral(c as nat, 16, 4, true);
    match t {
        Trouble::Illegal => seq!['`', c, '`'],
        Trouble::Control => code,
        Trouble::Invisible => crate::checks::invisible_label(c) + seq![' '] + code,
    }
}

/// The characters in trouble are named one after the other, with commas between.
pub proof fn law_trouble_is_named(t: Trouble, kinds: Seq<char>)
    ensures
        trouble_labels(t, kinds) == joined(
            kinds.map_values(|c: char| named(t, c)),
            seq![',', ' '],
        ),
    decreases kinds.len(),
{
    reveal_strlit("`");
    reveal_strlit("U+");
    reveal_strlit(" ");
    reveal_strlit(", ");
    let f = |c: char| named(t, c);
    let names = kinds.map_values(f);
    assert(", "@ == seq![',', ' ']);
    if kinds.len() > 0 {
        let c = kinds.last();
        assert(names.drop_last() == kinds.drop_last().map_values(f));
        assert(names.last() == named(t, c));
        assert(crate::checks::trouble_label(t, c) == named(t, c)) by {
            assert("`"@ + seq![c] + "`"@ == seq!['`', c, '`']);
            assert("U+"@ == seq!['U', '+']);
            assert(" "@ == seq![' ']);
        }
        law_trouble_is_named(t, kinds.drop_last());
        if kinds.len() == 1 {
            assert(names[0] == named(t, c));
        }
    }
}

proof fn lemma_filtered(s: Seq<char>, f: spec_fn(char) -> bool, c: char)
    ensures
        s.filter(f).contains(c) <==> s.contains(c) && f(c),
    decreases s.len(),
{
    reveal(Seq::filter);
    if s.len() > 0 {
        let u = s.drop_last();
        lemma_filtered(u, f, c);
        assert(u.push(s.last()) == s);
        lemma_contains_push(u, s.last(), c);
        lemma_contains_push(u.filter(f), s.last(), c);
    }
}

/// There are as many kinds of characters in trouble as different ones occur.
pub proof fn law_kinds_are_counted(t: Trouble, s: Seq<char>)
    ensures
        kinds_in(t, s).len() == s.filter(
            |c: char| mended(t, seq![c]) != seq![c],
        ).to_set().len(),
{
    let f = |c: char| mended(t, seq![c]) != seq![c];
    let kinds = kinds_in(t, s);
    let troubled = s.filter(f);
    law_kinds_are_listed_once(t, s);
    kinds.unique_seq_to_set();
    assert forall|c: char| #[trigger] kinds.to_set().contains(c) <==> troubled.to_set().contains(
        c,
    ) by {
        lemma_filtered(s, f, c);
        assert(kinds.contains(c) <==> s.contains(c) && f(c));
    }
    assert(kinds.to_set() =~= troubled.to_set());
}

/// The messages on characters show the name and say how many there are: of those that
/// Windows forbids how many different ones, of the others how many in all.
pub proof fn law_messages_on_characters(name: Seq<char>)
    ensures
        note_at(1, name) is Some ==> (note_at(1, name)->0).message == "`"@ + name.map_values(
            |c: char| seen(c),
        ).flatten() + "` contains "@ + decimal(
            name.filter(
                |c: char| mended(Trouble::Illegal, seq![c]) != seq![c],
            ).to_set().len(),
        ) + " Windows-forbidden character(s): "@ + trouble_labels(
            Trouble::Illegal,
            kinds_in(Trouble::Illegal, name),
        ),
        note_at(2, name) is Some ==> (note_at(2, name)->0).message == "`"@ + name.map_values(
            |c: char| seen(c),
        ).flatten() + "` contains "@ + decimal(
            name.filter(|c: char| mended(Trouble::Control, seq![c]) != seq![c]).len(),
        ) + " control character(s): "@ + trouble_labels(
            Trouble::Control,
            kinds_in(Trouble::Control, name),
        ),
        note_at(8, name) is Some ==> (note_at(8, name)->0).message == "`"@ + name.map_values(
            |c: char| seen(c),
        ).flatten() + "` contains "@ + decimal(
            name.filter(|c: char| mended(Trouble::Invisible, seq![c]) != seq![c]).len(),
        ) + " invisible or lookalike character(s): "@ + trouble_labels(
            Trouble::Invisible,
            kinds_in(Trouble::Invisible, name),
        ),
{
    law_text_is_shown(name);
    law_kinds_are_counted(Trouble::Illegal, name);
    law_trouble_is_counted(Trouble::Control, name);
    law_trouble_is_counted(Trouble::Invisible, name);
}

/// The messages on the ends, the form and the length of a name say what is wrong with
/// it: which character it ends with, how many characters it has and would have, how
/// many bytes and units it takes.
pub proof fn law_messages_on_names(name: Seq<char>)
    ensures
        ({
            let shown = name.map_values(|c: char| seen(c)).flatten();
            &&& note_at(0, name) is Some ==> (note_at(0, name)->0).message == "`"@ + shown
                + "` has the reserved DOS device stem `"@ + upper_all(device_stem(name))
                + "`; Windows cannot create, open or delete it"@
            &&& note_at(3, name) is Some && name.last() == '.' ==> (note_at(3, name)->0).message
                == "`"@ + shown + "` ends with a "@ + "dot"@
                + "; Windows silently strips it, so the stored and visible names disagree"@
            &&& note_at(3, name) is Some && name.last() == ' ' ==> (note_at(3, name)->0).message
                == "`"@ + shown + "` ends with a "@ + "space"@
                + "; Windows silently strips it, so the stored and visible names disagree"@
            &&& note_at(4, name) is Some ==> (note_at(4, name)->0).message == "`"@ + shown
                + "` begins with a space; Explorer and OneDrive reject or hide such names"@
            &&& note_at(7, name) is Some ==> (note_at(7, name)->0).message == "`"@ + shown
                + "` is not NFC-normalized ("@ + decimal(name.len())
                + " code points; the NFC form has "@ + decimal(nfc(name).len())
                + "); byte-comparing sync tools treat the two encodings as different files"@
            &&& note_at(9, name) is Some ==> (note_at(9, name)->0).message == "name is "@ + decimal(
                encode_utf8(name).len(),
            ) + " UTF-8 bytes / "@ + decimal(
                name.len() + name.filter(|c: char| c as int > 0xFFFF).len(),
            ) + " UTF-16 units; the portable limit is "@ + decimal(255) + " of each"@
        }),
{
    law_text_is_shown(name);
    lemma_utf8_len(name);
    law_utf16_units(name);
}

/// The message on the length of a path gives its units and the budget.
pub proof fn law_message_on_paths(path: Seq<char>, max_path: nat)
    ensures
        path_note(path, max_path) is Some <==> utf16_units(path) > max_path,
        path_note(path, max_path) is Some ==> {
            let n = path_note(path, max_path)->0;
            &&& n.check == row(10)
            &&& n.fix is None
            &&& n.message == "relative path is "@ + decimal(utf16_units(path))
                + " UTF-16 units, over the --max-path budget of "@ + decimal(max_path)
                + "; Win32 MAX_PATH counts 260 for the absolute path"@
        },
{
    reveal(path_note);
}

/// The message on a collision shows the name and the sibling that it collides with.
pub proof fn law_messages_on_collisions(this: Seq<u8>, first: Seq<u8>)
    requires
        valid_utf8(this),
        valid_utf8(first),
    ensures
        nfc(decode_utf8(this)) == nfc(decode_utf8(first)) ==> clash_note(this, first).message
            == "`"@ + display(this) + "` ("@ + decimal(decode_utf8(this).len())
            + " code points) and sibling `"@ + display(first) + "` ("@ + decimal(
            decode_utf8(first).len(),
        )
            + " code points) are the same text in different Unicode encodings; macOS and sync tools see one file"@,
        nfc(decode_utf8(this)) != nfc(decode_utf8(first)) ==> clash_note(this, first).message
            == "`"@ + display(this) + "` collides with sibling `"@ + display(first)
            + "` on case-insensitive filesystems (Windows, macOS default)"@,
{
    reveal(clash_note);
}

/// The message on a name that is no text gives the first invalid byte and where it
/// stands.
pub proof fn law_message_on_bytes(bytes: Seq<u8>, k: int)
    requires
        !valid_utf8(bytes),
        0 <= k < bytes.len(),
        valid_utf8(bytes.take(k)),
        !vstd::utf8::valid_first_scalar(bytes.skip(k)),
    ensures
        component_notes(bytes).len() == 1,
        component_notes(bytes)[0].message == "name is not valid UTF-8 (first invalid byte 0x"@
            + numeral(bytes[k] as nat, 16, 2, true) + " at offset "@ + decimal(k as nat)
            + "); macOS, Windows and every sync client require Unicode names"@,
{
    crate::check_laws::law_invalid_names_are_told(bytes);
    reveal(component_notes);
    lemma_prefix_is(bytes, k);
}

proof fn lemma_prefix_is(bytes: Seq<u8>, k: int)
    requires
        0 <= k < bytes.len(),
        valid_utf8(bytes.take(k)),
        !vstd::utf8::valid_first_scalar(bytes.skip(k)),
    ensures
        valid_prefix(bytes) == k,
    decreases bytes.len(),
{
    if k == 0 {
        assert(bytes.skip(0) == bytes);
    } else {
        let head = bytes.take(k);
        let n = vstd::utf8::length_of_first_scalar(head);
        assert(head[0] == bytes[0]);
        assert(k > 1 ==> head[1] == bytes[1]);
        assert(k > 2 ==> head[2] == bytes[2]);
        assert(k > 3 ==> head[3] == bytes[3]);
        let rest = vstd::utf8::pop_first_scalar(bytes);
        assert(vstd::utf8::valid_first_scalar(bytes));
        assert(rest.take(k - n) == vstd::utf8::pop_first_scalar(head));
        assert(rest.skip(k - n) == bytes.skip(k));
        lemma_prefix_is(rest, k - n);
    }
}

// ---------------------------------------------------------------------------
// Summaries
// ---------------------------------------------------------------------------
/// The numbers of a scan count what was scanned and, by severity, what was found.
pub proof fn law_tally(
    stats: Stats,
    reports: Seq<Report>,
    files: int,
    dirs: int,
    truncated: bool,
)
    ensures
        is_tally(stats, reports, files, dirs, truncated) <==> {
            &&& stats.files == files
            &&& stats.dirs == dirs
            &&& stats.truncated == truncated
            &&& stats.errors == reports.filter(
                |f: Report| f.check.severity == Severity::Error,
            ).len()
            &&& stats.warnings == reports.filter(
                |f: Report| f.check.severity == Severity::Warning,
            ).len()
            &&& stats.infos == reports.filter(
                |f: Report| f.check.severity == Severity::Info,
            ).len()
        },
{
    law_severities_are_counted(reports, Severity::Error);
    law_severities_are_counted(reports, Severity::Warning);
    law_severities_are_counted(reports, Severity::Info);
}

/// A report as text is the blocks of its findings, an empty line and a summary; and
/// without findings a summary alone.
pub proof fn law_text_reports(reports: Seq<Report>, stats: Stats)
    ensures
        ({
            let end = decimal(stats.files as nat) + " file(s), "@ + decimal(stats.dirs as nat)
                + " directory(ies) scanned"@ + if stats.truncated {
                " [walk truncated by --max-files; results are partial]"@
            } else {
                Seq::<char>::empty()
            };
            &&& reports.len() == 0 ==> text_report(reports, stats) == "findings: none — "@ + end
                + "\n"@
            &&& reports.len() > 0 ==> text_report(reports, stats) == reports.map_values(
                |f: Report| finding_line(f) + "\n"@,
            ).flatten() + "\n"@ + ("findings: "@ + decimal(reports.len()) + " — "@ + decimal(
                stats.errors as nat,
            ) + " error(s), "@ + decimal(stats.warnings as nat) + " warning(s), "@ + decimal(
                stats.infos as nat,
            ) + " info; "@ + end) + "\n"@
        }),
{
    reveal_strlit("");
    law_findings_are_printed(reports);
    assert(""@ == Seq::<char>::empty());
    if reports.len() == 0 {
        let s = summary(0, stats);
        assert(reports.map_values(|f: Report| finding_line(f) + "\n"@).len() == 0);
        assert(Seq::<char>::empty() + ""@ + s + "\n"@ == s + "\n"@);
    }
}

/// A plan as text is a line for each rename and a last line: that there is nothing to
/// fix, or how many renames were made or are planned.
pub proof fn law_text_plans(moves: Seq<Move>, applied: bool)
    ensures
        moves.len() == 0 ==> text_plan(moves, applied)
            == "nothing to fix — every name is portable\n"@,
        moves.len() > 0 && applied ==> text_plan(moves, applied) == moves.map_values(
            |m: Move| crate::report::move_line(m, applied),
        ).flatten() + ("applied "@ + decimal(moves.len()) + " rename(s)\n"@),
        moves.len() > 0 && !applied ==> text_plan(moves, applied) == moves.map_values(
            |m: Move| crate::report::move_line(m, applied),
        ).flatten() + ("planned "@ + decimal(moves.len())
            + " rename(s) — re-run with --apply to perform them\n"@),
{
    law_renames_are_printed(moves, applied);
    if moves.len() == 0 {
        let end = "nothing to fix — every name is portable\n"@;
        assert(Seq::<char>::empty() + end == end);
    }
}

// ---------------------------------------------------------------------------
// Names of things
// ---------------------------------------------------------------------------
/// What severities, targets and policies are called.
pub proof fn law_labels()
    ensures
        Severity::Error.label() == seq!['e', 'r', 'r', 'o', 'r'],
        Severity::Warning.label() == seq!['w', 'a', 'r', 'n', 'i', 'n', 'g'],
        Severity::Info.label() == seq!['i', 'n', 'f', 'o'],
        Target::Windows.label() == seq!['w', 'i', 'n', 'd', 'o', 'w', 's'],
        Target::Macos.label() == seq!['m', 'a', 'c', 'o', 's'],
        Target::Linux.label() == seq!['l', 'i', 'n', 'u', 'x'],
        Target::Cloud.label() == seq!['c', 'l', 'o', 'u', 'd'],
        FailOn::Error.label() == Severity::Error.label(),
        FailOn::Warning.label() == Severity::Warning.label(),
        FailOn::Info.label() == Severity::Info.label(),
        FailOn::Never.label() == seq!['n', 'e', 'v', 'e', 'r'],
{
    reveal_strlit("error");
    reveal_strlit("warning");
    reveal_strlit("info");
    reveal_strlit("never");
    reveal_strlit("windows");
    reveal_strlit("macos");
    reveal_strlit("linux");
    reveal_strlit("cloud");
}

/// A key names a check in any case, by its ID or its name.
pub proof fn law_keys_ignore_case(a: Seq<char>, b: Seq<char>, k: int)
    requires
        upper_all(a) == upper_all(b),
    ensures
        crate::rules::names(a, k) <==> crate::rules::names(b, k),
{
}

} // verus!
