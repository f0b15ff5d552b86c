//! What is counted, shown and folded character by character, item by item.

use vstd::prelude::*;
use vstd::utf8::{decode_utf8, encode_utf8, valid_utf8};

use crate::checks::{display, fits, shown_bytes, shown_text};
use crate::cli::{
    check_entries, check_entry, is_white, padded, trim_white, trim_white_end, trim_white_start,
};
use crate::engine::{count_paths, count_severity, Report};
use crate::fixname::{depth, Move};
use crate::json::hex;
use crate::mend_laws::{looks_like_space, renders_as_nothing};
use crate::numerals::{digit, lemma_quotient, numeral};
use crate::report::{finding_blocks, finding_line, move_line, move_lines};
use crate::rules::{row, Severity};
use crate::text::lemma_utf8_len;
use crate::unicode::{casefold, fold_all, nfc, lowercase, utf16_units};
use crate::walker::{count_dirs, count_entries, Entry, Visit};

verus! {

/// What a list becomes where each item becomes a list.
proof fn lemma_flat_last<A, B>(s: Seq<A>, f: spec_fn(A) -> Seq<B>)
    requires
        s.len() > 0,
    ensures
        s.map_values(f).flatten() == s.drop_last().map_values(f).flatten() + f(s.last()),
{
    let t = s.map_values(f);
    t.lemma_flatten_and_flatten_alt_are_equivalent();
    t.drop_last().lemma_flatten_and_flatten_alt_are_equivalent();
    assert(t.drop_last() == s.drop_last().map_values(f));
    assert(t.last() == f(s.last()));
}

proof fn lemma_flat_none<A, B>(s: Seq<A>, f: spec_fn(A) -> Seq<B>)
    requires
        s.len() == 0,
    ensures
        s.map_values(f).flatten() == Seq::<B>::empty(),
{
    assert(s.map_values(f).len() == 0);
}

// ---------------------------------------------------------------------------
// Lengths
// ---------------------------------------------------------------------------
/// A text takes one UTF-16 unit for each character, and one more for each beyond
/// the basic plane.
pub proof fn law_utf16_units(s: Seq<char>)
    ensures
        utf16_units(s) == s.len() + s.filter(|c: char| c as int > 0xFFFF).len(),
    decreases s.len(),
{
    reveal(Seq::filter);
    if s.len() > 0 {
        law_utf16_units(s.drop_last());
    }
}

/// A name fits where neither its UTF-8 bytes nor its UTF-16 units are more than 255.
pub proof fn law_fits(s: Seq<char>)
    ensures
        fits(s) <==> encode_utf8(s).len() <= 255 && s.len() + s.filter(
            |c: char| c as int > 0xFFFF,
        ).len() <= 255,
{
    law_utf16_units(s);
    lemma_utf8_len(s);
}

// ---------------------------------------------------------------------------
// Numerals
// ---------------------------------------------------------------------------
/// The number that hexadecimal digits, behind `n`, stand for.
pub open spec fn hex_number(t: Seq<char>, n: nat) -> Option<nat>
    decreases t.len(),
{
    if t.len() == 0 {
        Some(n)
    } else {
        match hex(t[0]) {
            Some(d) => hex_number(t.skip(1), 16 * n + d as nat),
            None => None,
        }
    }
}

proof fn lemma_hex_push(t: Seq<char>, c: char, n: nat)
    ensures
        hex_number(t.push(c), n) == match (hex_number(t, n), hex(c)) {
            (Some(m), Some(d)) => Some(16 * m + d as nat),
            _ => None,
        },
    decreases t.len(),
{
    let s = t.push(c);
    if t.len() == 0 {
        reveal_with_fuel(hex_number, 2);
        assert(s[0] == c);
        assert(s.skip(1) == Seq::<char>::empty());
    } else {
        assert(s[0] == t[0]);
        assert(s.skip(1) == t.skip(1).push(c));
        if hex(t[0]) is Some {
            lemma_hex_push(t.skip(1), c, 16 * n + (hex(t[0])->0) as nat);
        }
    }
}

/// A hexadecimal numeral stands for its number, in as many digits as are asked for
/// or, without a zero in front, in more; its letters are capitals if asked for.
pub proof fn law_hexadecimal_reads_back(n: nat, width: nat, capital: bool)
    ensures
        hex_number(numeral(n, 16, width, capital), 0) == Some(n),
        numeral(n, 16, width, capital).len() >= width,
        numeral(n, 16, width, capital).len() > 0,
        numeral(n, 16, width, capital).len() > width ==> n > 0 || width == 0,
        n > 0 && numeral(n, 16, width, capital).len() > width ==> numeral(n, 16, width, capital)[0]
            != '0',
        forall|i: int|
            0 <= i < numeral(n, 16, width, capital).len() ==> if capital {
                !('a' <= #[trigger] numeral(n, 16, width, capital)[i] <= 'f')
            } else {
                !('A' <= numeral(n, 16, width, capital)[i] <= 'F')
            },
    decreases n + width,
{
    let s = numeral(n, 16, width, capital);
    let c = digit(n % 16, capital);
    lemma_quotient(n, 16);
    assert(hex(c) == Some((n % 16) as int));
    assert(!capital ==> !('A' <= c <= 'F'));
    assert(capital ==> !('a' <= c <= 'f'));
    if n < 16 && width <= 1 {
        assert(s == seq![c]);
        let none = Seq::<char>::empty();
        assert(none.push(c) == s);
        lemma_hex_push(none, c, 0);
    } else {
        let less: nat = if width == 0 {
            0
        } else {
            (width - 1) as nat
        };
        law_hexadecimal_reads_back(n / 16, less, capital);
        let head = numeral(n / 16, 16, less, capital);
        assert(s == head.push(c));
        lemma_hex_push(head, c, 0);
        assert(s[0] == head[0]);
        assert forall|i: int| 0 <= i < s.len() implies if capital {
            !('a' <= #[trigger] s[i] <= 'f')
        } else {
            !('A' <= s[i] <= 'F')
        } by {
            if i < head.len() {
                assert(s[i] == head[i]);
            }
        }
    }
}

// ---------------------------------------------------------------------------
// Showing names
// ---------------------------------------------------------------------------
/// How a character is shown: as itself or, if it cannot be seen, by its code point.
pub open spec fn seen(c: char) -> Seq<char> {
    let n = c as int;
    if n < 0x20 || 0x7F <= n <= 0x9F || looks_like_space(c) || renders_as_nothing(c) {
        seq!['<', 'U', '+'] + numeral(c as nat, 16, 4, true) + seq!['>']
    } else {
        seq![c]
    }
}

/// How a byte is shown: as itself if it is printable ASCII, else by its number.
pub open spec fn seen_byte(b: u8) -> Seq<char> {
    if 0x20 <= b <= 0x7E {
        seq![b as char]
    } else {
        seq!['<', '0', 'x'] + numeral(b as nat, 16, 2, true) + seq!['>']
    }
}

/// A text is shown character by character.
pub proof fn law_text_is_shown(s: Seq<char>)
    ensures
        shown_text(s) == s.map_values(|c: char| seen(c)).flatten(),
    decreases s.len(),
{
    let f = |c: char| seen(c);
    if s.len() == 0 {
        lemma_flat_none(s, f);
    } else {
        lemma_flat_last(s, f);
        law_text_is_shown(s.drop_last());
        reveal_strlit("<");
        reveal_strlit(">");
        reveal_strlit("U+");
        let c = s.last();
        let n = numeral(c as nat, 16, 4, true);
        assert("<"@ + ("U+"@ + n) + ">"@ == seq!['<', 'U', '+'] + n + seq!['>']);
    }
}

/// Bytes that are no text are shown byte by byte.
pub proof fn law_bytes_are_shown(s: Seq<u8>)
    ensures
        shown_bytes(s) == s.map_values(|b: u8| seen_byte(b)).flatten(),
    decreases s.len(),
{
    let f = |b: u8| seen_byte(b);
    if s.len() == 0 {
        lemma_flat_none(s, f);
    } else {
        lemma_flat_last(s, f);
        law_bytes_are_shown(s.drop_last());
        reveal_strlit("<0x");
        reveal_strlit(">");
        let n = numeral(s.last() as nat, 16, 2, true);
        assert("<0x"@ + n + ">"@ == seq!['<', '0', 'x'] + n + seq!['>']);
    }
}

/// A name is shown character by character where it is text, else byte by byte.
pub proof fn law_names_are_shown(bytes: Seq<u8>)
    ensures
        valid_utf8(bytes) ==> display(bytes) == decode_utf8(bytes).map_values(
            |c: char| seen(c),
        ).flatten(),
        !valid_utf8(bytes) ==> display(bytes) == bytes.map_values(|b: u8| seen_byte(b)).flatten(),
{
    law_text_is_shown(decode_utf8(bytes));
    law_bytes_are_shown(bytes);
}

/// A text is folded character by character: ASCII letters to small ones, other ASCII
/// characters to themselves, and all others as the Unicode tables have it.
pub proof fn law_text_is_folded(s: Seq<char>)
    ensures
        fold_all(s) == s.map_values(
            |c: char|
                if 0x41 <= c as int <= 0x5A {
                    seq![(c as int + 0x20) as char]
                } else if (c as int) < 0x80 {
                    seq![c]
                } else {
                    lowercase(c)
                },
        ).flatten(),
    decreases s.len(),
{
    let f = |c: char|
        if 0x41 <= c as int <= 0x5A {
            seq![(c as int + 0x20) as char]
        } else if (c as int) < 0x80 {
            seq![c]
        } else {
            lowercase(c)
        };
    if s.len() == 0 {
        lemma_flat_none(s, f);
    } else {
        lemma_flat_last(s, f);
        law_text_is_folded(s.drop_last());
    }
}

/// The key of a name is its NFC, folded.
pub proof fn law_keys_are_folded(s: Seq<char>)
    ensures
        casefold(s) == fold_all(nfc(s)),
        nfc(s) == s ==> casefold(s) == fold_all(s),
{
}

// ---------------------------------------------------------------------------
// Counting
// ---------------------------------------------------------------------------
/// Findings are counted by their severity.
pub proof fn law_severities_are_counted(reports: Seq<Report>, severity: Severity)
    ensures
        count_severity(reports, severity) == reports.filter(
            |f: Report| f.check.severity == severity,
        ).len(),
    decreases reports.len(),
{
    reveal(Seq::filter);
    if reports.len() > 0 {
        law_severities_are_counted(reports.drop_last(), severity);
    }
}

/// Every finding is counted once.
pub proof fn law_findings_are_counted_once(reports: Seq<Report>)
    ensures
        count_severity(reports, Severity::Error) + count_severity(reports, Severity::Warning)
            + count_severity(reports, Severity::Info) == reports.len(),
    decreases reports.len(),
{
    if reports.len() > 0 {
        law_findings_are_counted_once(reports.drop_last());
    }
}

/// Of a list of paths those are counted that are not empty.
pub proof fn law_paths_are_counted(paths: Seq<Seq<u8>>)
    ensures
        count_paths(paths) == paths.filter(|p: Seq<u8>| p.len() != 0).len(),
    decreases paths.len(),
{
    reveal(Seq::filter);
    if paths.len() > 0 {
        law_paths_are_counted(paths.drop_last());
    }
}

/// The directories among entries are counted.
pub proof fn law_directories_are_counted(entries: Seq<Entry>)
    ensures
        count_dirs(entries) == entries.filter(|e: Entry| e.is_dir).len(),
    decreases entries.len(),
{
    reveal(Seq::filter);
    if entries.len() > 0 {
        law_directories_are_counted(entries.drop_last());
    }
}

/// The entries of all visited directories are counted.
pub proof fn law_entries_are_counted(visits: Seq<Visit>)
    ensures
        count_entries(visits) == visits.map_values(|v: Visit| v.entries).flatten().len(),
    decreases visits.len(),
{
    let f = |v: Visit| v.entries;
    if visits.len() == 0 {
        lemma_flat_none(visits, f);
    } else {
        lemma_flat_last(visits, f);
        law_entries_are_counted(visits.drop_last());
    }
}

/// A display path is as many directories deep as it has places where a part begins:
/// no slash, and nothing or a slash before.
pub proof fn law_depth_counts_parts(path: Seq<char>)
    ensures
        depth(path) == Seq::new(path.len(), |i: int| i).filter(
            |i: int| path[i] != '/' && (i == 0 || path[i - 1] == '/'),
        ).len(),
{
    lemma_depth(path, path.len() as int);
    assert(path.take(path.len() as int) == path);
}

proof fn lemma_depth(path: Seq<char>, k: int)
    requires
        0 <= k <= path.len(),
    ensures
        depth(path.take(k)) == Seq::new(k as nat, |i: int| i).filter(
            |i: int| path[i] != '/' && (i == 0 || path[i - 1] == '/'),
        ).len(),
    decreases k,
{
    reveal(Seq::filter);
    let places = Seq::new(k as nat, |i: int| i);
    if k > 0 {
        lemma_depth(path, k - 1);
        assert(places.drop_last() == Seq::new((k - 1) as nat, |i: int| i));
        assert(path.take(k).drop_last() == path.take(k - 1));
        assert(path.take(k).last() == path[k - 1]);
        assert(k > 1 ==> path.take(k)[k - 2] == path[k - 2]);
    }
}

// ---------------------------------------------------------------------------
// Texts of many items
// ---------------------------------------------------------------------------
/// A report as text has a block for each finding, in order.
pub proof fn law_findings_are_printed(reports: Seq<Report>)
    ensures
        finding_blocks(reports) == reports.map_values(
            |f: Report| finding_line(f) + "\n"@,
        ).flatten(),
    decreases reports.len(),
{
    let f = |r: Report| finding_line(r) + "\n"@;
    if reports.len() == 0 {
        lemma_flat_none(reports, f);
    } else {
        lemma_flat_last(reports, f);
        law_findings_are_printed(reports.drop_last());
        let before = finding_blocks(reports.drop_last());
        assert(before + finding_line(reports.last()) + "\n"@ == before + (finding_line(
            reports.last(),
        ) + "\n"@));
    }
}

/// A plan as text has a line for each rename, in order.
pub proof fn law_renames_are_printed(moves: Seq<Move>, applied: bool)
    ensures
        move_lines(moves, applied) == moves.map_values(
            |m: Move| move_line(m, applied),
        ).flatten(),
    decreases moves.len(),
{
    let f = |m: Move| move_line(m, applied);
    if moves.len() == 0 {
        lemma_flat_none(moves, f);
    } else {
        lemma_flat_last(moves, f);
        law_renames_are_printed(moves.drop_last(), applied);
    }
}

/// The listing of the catalog has every entry, in order.
pub proof fn law_checks_are_listed(k: int)
    requires
        0 <= k,
    ensures
        check_entries(k) == Seq::new(k as nat, |i: int| i).map_values(
            |i: int| check_entry(row(i)),
        ).flatten(),
    decreases k,
{
    let f = |i: int| check_entry(row(i));
    let places = Seq::new(k as nat, |i: int| i);
    if k == 0 {
        lemma_flat_none(places, f);
    } else {
        lemma_flat_last(places, f);
        law_checks_are_listed(k - 1);
        assert(places.drop_last() == Seq::new((k - 1) as nat, |i: int| i));
    }
}

/// A text is filled up with spaces to a width that it does not exceed.
pub proof fn law_padding(s: Seq<char>, width: nat)
    ensures
        padded(s, width).len() == if s.len() < width {
            width
        } else {
            s.len()
        },
        padded(s, width).take(s.len() as int) == s,
        forall|i: int| s.len() <= i < padded(s, width).len() ==> #[trigger] padded(s, width)[i] == ' ',
    decreases width - s.len(),
{
    if s.len() < width {
        law_padding(s.push(' '), width);
        let t = padded(s, width);
        assert(t.take(s.len() as int) == t.take(s.len() as int + 1).take(s.len() as int));
        assert(s.push(' ').take(s.len() as int) == s);
        assert(t.take(s.len() as int + 1)[s.len() as int] == ' ');
    } else {
        assert(s.take(s.len() as int) == s);
    }
}

/// White space at the ends, and nothing else, is left out.
pub proof fn law_white_space_is_trimmed(s: Seq<char>)
    ensures
        exists|a: int, b: int|
            0 <= a <= b <= s.len() && trim_white(s) == #[trigger] s.subrange(a, b) && (a < b
                ==> !is_white(s[a]) && !is_white(s[b - 1])) && (forall|i: int|
                0 <= i < a || b <= i < s.len() ==> is_white(#[trigger] s[i])),
{
    lemma_trim_white_start(s);
    let t = trim_white_start(s);
    let a = s.len() - t.len();
    lemma_trim_white_end(t);
    let u = trim_white_end(t);
    let b = a + u.len();
    assert(s.subrange(a, b) == u);
    assert forall|i: int| 0 <= i < a || b <= i < s.len() implies is_white(#[trigger] s[i]) by {
        if i >= b {
            assert(t[i - a] == s[i]);
        }
    }
    assert(a < b ==> u[0] == t[0] && u.last() == s[b - 1]);
}

proof fn lemma_trim_white_start(s: Seq<char>)
    ensures
        trim_white_start(s).len() <= s.len(),
        trim_white_start(s) == s.skip(s.len() - trim_white_start(s).len()),
        trim_white_start(s).len() > 0 ==> !is_white(trim_white_start(s)[0]),
        forall|i: int|
            0 <= i < s.len() - trim_white_start(s).len() ==> is_white(#[trigger] s[i]),
    decreases s.len(),
{
    if s.len() > 0 && is_white(s[0]) {
        let u = s.skip(1);
        lemma_trim_white_start(u);
        let n = trim_white_start(u).len();
        assert(u.skip(u.len() - n) == s.skip(s.len() - n));
        assert forall|i: int| 0 <= i < s.len() - n implies is_white(#[trigger] s[i]) by {
            if i > 0 {
                assert(u[i - 1] == s[i]);
            }
        }
    } else {
        assert(s.skip(0) == s);
    }
}

proof fn lemma_trim_white_end(s: Seq<char>)
    ensures
        trim_white_end(s).len() <= s.len(),
        trim_white_end(s) == s.take(trim_white_end(s).len() as int),
        trim_white_end(s).len() > 0 ==> !is_white(trim_white_end(s).last()),
        forall|i: int| trim_white_end(s).len() <= i < s.len() ==> is_white(#[trigger] s[i]),
    decreases s.len(),
{
    if s.len() > 0 && is_white(s.last()) {
        let u = s.drop_last();
        lemma_trim_white_end(u);
        let n = trim_white_end(u).len() as int;
        assert(u.take(n) == s.take(n));
        assert forall|i: int| n <= i < s.len() implies is_white(#[trigger] s[i]) by {
            if i < u.len() {
                assert(u[i] == s[i]);
            }
        }
    } else {
        assert(s.take(s.len() as int) == s);
    }
}

} // verus!
