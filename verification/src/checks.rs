//! The check implementations: pure functions from a name, or a directory of
//! names, to findings.
//!
//! Everything here works on bytes and strings, without access to a filesystem,
//! so the same code serves a tree walk, a list of paths and the fix planner.

use vstd::prelude::*;
use vstd::string::{StrSliceExecFns, StringExecFns};
use vstd::utf8::{decode_utf8, valid_utf8};

use crate::mend_laws::{law_mended_is_flat, stand_in};
use crate::numerals::{code_point, decimal, numeral, push_code_point, push_decimal, push_numeral};
use crate::rules::{catalog, row, Check, Row, CHECK_COUNT};
use crate::text::{
    begins, byte_len, chars_of, contains_text, find_first_dot, first_dot, last_dot, lemma_first_dot,
    lemma_last_dot, lemma_trim_end, lemma_utf8_len_concat, occurs, same_text, starts_with, to_upper,
    trim_end, trim_start, trimmed_end, trimmed_start, upper_all, utf8_len,
};
use crate::unicode::{
    casefold, casefold_key, fold_all, is_nfc, lemma_utf16_bound, lemma_utf16_concat, lower, nfc,
    to_nfc, utf16_len, utf16_units,
};
use crate::utf8::{decode, decode_lossy, lemma_valid_prefix, patch, patched, valid_prefix};

verus! {

/// The characters that Windows rejects inside a name.
pub open spec fn is_illegal(c: char) -> bool {
    c == ':' || c == '|' || c == '\\' || c == '"' || c == '<' || c == '>' || c == '?' || c == '*'
}

/// The ASCII control characters.
pub open spec fn is_ascii_control(c: char) -> bool {
    c <= '\u{1F}' || c == '\u{7F}'
}

pub open spec fn is_lookalike_space(c: char) -> bool {
    c == '\u{00A0}' || '\u{2000}' <= c <= '\u{200A}' || c == '\u{202F}' || c == '\u{205F}' || c
        == '\u{1680}'
}

pub open spec fn is_zero_width_space(c: char) -> bool {
    c == '\u{200B}' || c == '\u{2060}' || c == '\u{FEFF}' || c == '\u{180E}'
}

pub open spec fn is_zero_width_joiner(c: char) -> bool {
    c == '\u{200C}' || c == '\u{200D}'
}

pub open spec fn is_soft_hyphen(c: char) -> bool {
    c == '\u{00AD}'
}

pub open spec fn is_bidi_control(c: char) -> bool {
    c == '\u{200E}' || c == '\u{200F}' || c == '\u{061C}' || '\u{202A}' <= c <= '\u{202E}'
        || '\u{2066}' <= c <= '\u{2069}'
}

/// The characters that render as nothing or as an ordinary space.
pub open spec fn is_invisible(c: char) -> bool {
    is_lookalike_space(c) || is_zero_width_space(c) || is_zero_width_joiner(c) || is_soft_hyphen(c)
        || is_bidi_control(c)
}

// ---------------------------------------------------------------------------
// Findings about one name
// ---------------------------------------------------------------------------
/// A finding about one name, not yet attached to a path.
pub struct NameFinding {
    pub check: &'static Check,
    pub message: String,
    /// A replacement for the whole name, where a mechanical fix exists.
    pub fix: Option<String>,
}

/// What a finding about one name says.
pub ghost struct Note {
    pub check: Row,
    pub message: Seq<char>,
    pub fix: Option<Seq<char>>,
}

/// The text of an optional string.
pub open spec fn text_of(s: Option<String>) -> Option<Seq<char>> {
    match s {
        Some(t) => Some(t@),
        None => None,
    }
}

impl View for NameFinding {
    type V = Note;

    open spec fn view(&self) -> Note {
        Note { check: self.check@, message: self.message@, fix: text_of(self.fix) }
    }
}

impl NameFinding {
    /// A finding of the check in the `k`-th entry of the catalog.
    fn new(k: usize, message: String, fix: Option<String>) -> (r: NameFinding)
        requires
            k < CHECK_COUNT,
        ensures
            r@ == (Note { check: row(k as int), message: message@, fix: text_of(fix) }),
    {
        NameFinding { check: &catalog()[k], message, fix }
    }
}

// ---------------------------------------------------------------------------
// Showing names
// ---------------------------------------------------------------------------
/// Is `c` a control character (of Unicode's category Cc)?
pub open spec fn is_control(c: char) -> bool {
    c <= '\u{1F}' || '\u{7F}' <= c <= '\u{9F}'
}

/// How a character is shown.
pub open spec fn shown_char(c: char) -> Seq<char> {
    if is_control(c) || is_invisible(c) {
        "<"@ + code_point(c) + ">"@
    } else {
        seq![c]
    }
}

/// How a text is shown: control and invisible characters as code points.
pub open spec fn shown_text(s: Seq<char>) -> Seq<char>
    decreases s.len(),
{
    if s.len() == 0 {
        seq![]
    } else {
        shown_text(s.drop_last()) + shown_char(s.last())
    }
}

/// How a byte of an undecodable name is shown.
pub open spec fn shown_byte(b: u8) -> Seq<char> {
    if 0x20 <= b < 0x7F {
        seq![b as char]
    } else {
        "<0x"@ + numeral(b as nat, 16, 2, true) + ">"@
    }
}

/// How an undecodable name is shown: printable ASCII as it is, any other byte as
/// a number.
pub open spec fn shown_bytes(bytes: Seq<u8>) -> Seq<char>
    decreases bytes.len(),
{
    if bytes.len() == 0 {
        seq![]
    } else {
        shown_bytes(bytes.drop_last()) + shown_byte(bytes.last())
    }
}

/// How a name is shown.
pub open spec fn display(bytes: Seq<u8>) -> Seq<char> {
    if valid_utf8(bytes) {
        shown_text(decode_utf8(bytes))
    } else {
        shown_bytes(bytes)
    }
}

/// Is `c` shown as a code point?
fn is_hidden(c: char) -> (r: bool)
    ensures
        r == (is_control(c) || is_invisible(c)),
{
    c <= '\u{1F}' || ('\u{7F}' <= c && c <= '\u{9F}') || invisible_info(c).is_some()
}

/// Shows a text.
fn show(s: &str) -> (r: String)
    ensures
        r@ == shown_text(s@),
{
    let mut out = String::new();
    for c in it: s.chars()
        invariant
            it.seq() == s@,
            out@ == shown_text(s@.take(it.index())),
    {
        assert(s@.take(it.index() + 1).drop_last() == s@.take(it.index()));
        let ghost before = out@;
        if is_hidden(c) {
            out.append("<");
            push_code_point(&mut out, c);
            out.append(">");
        } else {
            out.push(c);
        }
        assert(out@ == before + shown_char(c));
    }
    assert(s@.take(s@.len() as int) == s@);
    out
}

/// Renders a name for humans: control and invisible code points become
/// `<U+XXXX>`, so that a finding about an invisible problem is visible.
pub fn display_name(bytes: &[u8]) -> (r: String)
    ensures
        r@ == display(bytes@),
{
    match decode(bytes) {
        Ok(s) => show(&s),
        Err(_) => {
            let mut out = String::new();
            let mut i: usize = 0;
            while i < bytes.len()
                invariant
                    i <= bytes@.len(),
                    out@ == shown_bytes(bytes@.take(i as int)),
                decreases bytes@.len() - i,
            {
                let b: u8 = bytes[i];
                assert(bytes@.take(i + 1).drop_last() == bytes@.take(i as int));
                let ghost before = out@;
                if 0x20 <= b && b < 0x7F {
                    out.push(b as char);
                } else {
                    out.append("<0x");
                    push_numeral(&mut out, b as u128, 16, 2, true);
                    out.append(">");
                }
                assert(out@ == before + shown_byte(b));
                i = i + 1;
            }
            assert(bytes@.take(bytes@.len() as int) == bytes@);
            out
        },
    }
}

// ---------------------------------------------------------------------------
// Reserved names
// ---------------------------------------------------------------------------
/// What Windows compares with the device names: all before the first dot,
/// without the spaces and dots at its end.
pub open spec fn device_stem(name: Seq<char>) -> Seq<char> {
    trim_end(name.take(first_dot(name)))
}

/// Is `c` a digit that a serial or printer port is numbered with?
pub open spec fn is_port_digit(c: char) -> bool {
    '0' <= c <= '9' || c == '\u{00B9}' || c == '\u{00B2}' || c == '\u{00B3}'
}

/// Is `stem` a reserved DOS device name, in any letter case?
pub open spec fn is_reserved(stem: Seq<char>) -> bool {
    let up = upper_all(stem);
    ||| up == "CON"@ || up == "PRN"@ || up == "AUX"@ || up == "NUL"@
    ||| up.len() == 4 && (up.take(3) == "COM"@ || up.take(3) == "LPT"@) && is_port_digit(up[3])
}

/// The stem that Windows compares with the device names: everything before the
/// first dot, without trailing spaces and dots.
pub fn windows_stem<'a>(name: &'a str) -> (r: &'a str)
    ensures
        r@ == device_stem(name@),
{
    let chars: Vec<char> = chars_of(name);
    let dot: usize = find_first_dot(&chars);
    proof {
        lemma_first_dot(name@);
    }
    assert(name@.subrange(0, dot as int) == name@.take(dot as int));
    trimmed_end(name.substring_char(0, dot))
}

/// Is `stem` (already extracted) a reserved DOS device name?
pub fn is_reserved_stem(stem: &str) -> (r: bool)
    ensures
        r == is_reserved(stem@),
{
    let up: String = to_upper(stem);
    if same_text(&up, "CON") || same_text(&up, "PRN") || same_text(&up, "AUX") || same_text(
        &up,
        "NUL",
    ) {
        return true;
    }
    let chars: Vec<char> = chars_of(&up);
    if chars.len() != 4 {
        return false;
    }
    let prefix: &str = up.as_str().substring_char(0, 3);
    assert(up@.subrange(0, 3) == up@.take(3));
    let port: bool = same_text(prefix, "COM") || same_text(prefix, "LPT");
    let c: char = chars[3];
    port && (('0' <= c && c <= '9') || c == '\u{00B9}' || c == '\u{00B2}' || c == '\u{00B3}')
}

pub open spec fn reserved_note(name: Seq<char>) -> Option<Note> {
    let stem = device_stem(name);
    if is_reserved(stem) {
        Some(
            Note {
                check: row(0),
                message: "`"@ + shown_text(name) + "` has the reserved DOS device stem `"@
                    + upper_all(stem)
                    + "`; Windows cannot create, open or delete it"@,
                fix: Some(stem + "_"@ + name.skip(stem.len() as int)),
            },
        )
    } else {
        None
    }
}

/// The view of an optional finding.
pub open spec fn note_of(f: Option<NameFinding>) -> Option<Note> {
    match f {
        Some(n) => Some(n@),
        None => None,
    }
}

fn check_reserved_name(name: &str) -> (r: Option<NameFinding>)
    ensures
        note_of(r) == reserved_note(name@),
{
    let stem: &str = windows_stem(name);
    if !is_reserved_stem(stem) {
        return None;
    }
    proof {
        lemma_first_dot(name@);
        lemma_trim_end(name@.take(first_dot(name@)));
    }
    let n: usize = stem.unicode_len();
    let rest: &str = name.substring_char(n, name.unicode_len());
    assert(name@.subrange(n as int, name@.len() as int) == name@.skip(n as int));
    let mut fixed: String = stem.to_owned();
    fixed.append("_");
    fixed.append(rest);
    let mut message: String = "`".to_owned();
    message.append(&show(name));
    message.append("` has the reserved DOS device stem `");
    message.append(&to_upper(stem));
    message.append("`; Windows cannot create, open or delete it");
    Some(NameFinding::new(0, message, Some(fixed)))
}

// ---------------------------------------------------------------------------
// Characters that a fix removes or replaces
// ---------------------------------------------------------------------------
/// What can be wrong with a single character.
#[derive(Debug, Clone, Copy, PartialEq, Eq, Structural)]
pub enum Trouble {
    /// Windows rejects it.
    Illegal,
    /// It is an ASCII control character.
    Control,
    /// It renders as nothing or as an ordinary space.
    Invisible,
}

/// What to do with an invisible or lookalike character in a fix.
#[derive(Clone, Copy, PartialEq, Eq, Structural)]
pub enum InvisibleAction {
    Remove,
    ReplaceWithSpace,
}

/// What stands in for a character that Windows rejects.
pub open spec fn legal_form(c: char) -> Seq<char> {
    if c == ':' || c == '|' || c == '\\' {
        "-"@
    } else if c == '"' {
        "'"@
    } else if c == '<' {
        "("@
    } else if c == '>' {
        ")"@
    } else {
        ""@
    }
}

/// What kind of invisible character `c` is.
pub open spec fn invisible_label(c: char) -> Seq<char> {
    if is_lookalike_space(c) {
        "lookalike space"@
    } else if is_zero_width_space(c) {
        "zero-width space"@
    } else if is_zero_width_joiner(c) {
        "zero-width joiner"@
    } else if is_soft_hyphen(c) {
        "soft hyphen"@
    } else {
        "bidi control"@
    }
}

/// Is `c` in that kind of trouble?
pub open spec fn is_in(t: Trouble, c: char) -> bool {
    match t {
        Trouble::Illegal => is_illegal(c),
        Trouble::Control => is_ascii_control(c),
        Trouble::Invisible => is_invisible(c),
    }
}

/// What a fix puts for `c`.
pub open spec fn mended_char(t: Trouble, c: char) -> Seq<char> {
    if !is_in(t, c) {
        seq![c]
    } else {
        match t {
            Trouble::Illegal => legal_form(c),
            Trouble::Control => seq![],
            Trouble::Invisible => if is_lookalike_space(c) {
                seq![' ']
            } else {
                seq![]
            },
        }
    }
}

/// What a fix makes of `s`.
pub open spec fn mended(t: Trouble, s: Seq<char>) -> Seq<char>
    decreases s.len(),
{
    if s.len() == 0 {
        seq![]
    } else {
        mended(t, s.drop_last()) + mended_char(t, s.last())
    }
}

/// How many characters of `s` are in that kind of trouble.
pub open spec fn count_in(t: Trouble, s: Seq<char>) -> nat
    decreases s.len(),
{
    if s.len() == 0 {
        0
    } else {
        count_in(t, s.drop_last()) + if is_in(t, s.last()) {
            1nat
        } else {
            0nat
        }
    }
}

/// The characters of `s` that are in that kind of trouble, each once, in the
/// order in which they first occur.
pub open spec fn kinds_in(t: Trouble, s: Seq<char>) -> Seq<char>
    decreases s.len(),
{
    if s.len() == 0 {
        seq![]
    } else {
        let before = kinds_in(t, s.drop_last());
        if is_in(t, s.last()) && !before.contains(s.last()) {
            before.push(s.last())
        } else {
            before
        }
    }
}

/// How a message names a character in trouble.
pub open spec fn trouble_label(t: Trouble, c: char) -> Seq<char> {
    match t {
        Trouble::Illegal => "`"@ + seq![c] + "`"@,
        Trouble::Control => code_point(c),
        Trouble::Invisible => invisible_label(c) + " "@ + code_point(c),
    }
}

/// The names of the characters, with commas between.
pub open spec fn trouble_labels(t: Trouble, kinds: Seq<char>) -> Seq<char>
    decreases kinds.len(),
{
    if kinds.len() == 0 {
        seq![]
    } else if kinds.len() == 1 {
        trouble_label(t, kinds.last())
    } else {
        trouble_labels(t, kinds.drop_last()) + ", "@ + trouble_label(t, kinds.last())
    }
}

/// What stands in for a character that Windows rejects, if `c` is one.
pub fn illegal_char_replacement(c: char) -> (r: Option<&'static str>)
    ensures
        r is Some == is_illegal(c),
        r is Some ==> (r->0)@ == legal_form(c),
{
    if c == ':' || c == '|' || c == '\\' {
        Some("-")
    } else if c == '"' {
        Some("'")
    } else if c == '<' {
        Some("(")
    } else if c == '>' {
        Some(")")
    } else if c == '?' || c == '*' {
        Some("")
    } else {
        None
    }
}

/// What kind of invisible or lookalike character `c` is, and what a fix does
/// with it.
pub fn invisible_info(c: char) -> (r: Option<(&'static str, InvisibleAction)>)
    ensures
        r is Some == is_invisible(c),
        r is Some ==> (r->0).0@ == invisible_label(c),
        r is Some ==> (r->0).1 == if is_lookalike_space(c) {
            InvisibleAction::ReplaceWithSpace
        } else {
            InvisibleAction::Remove
        },
{
    if c == '\u{00A0}' || ('\u{2000}' <= c && c <= '\u{200A}') || c == '\u{202F}' || c
        == '\u{205F}' || c == '\u{1680}' {
        Some(("lookalike space", InvisibleAction::ReplaceWithSpace))
    } else if c == '\u{200B}' || c == '\u{2060}' || c == '\u{FEFF}' || c == '\u{180E}' {
        Some(("zero-width space", InvisibleAction::Remove))
    } else if c == '\u{200C}' || c == '\u{200D}' {
        Some(("zero-width joiner", InvisibleAction::Remove))
    } else if c == '\u{00AD}' {
        Some(("soft hyphen", InvisibleAction::Remove))
    } else if c == '\u{200E}' || c == '\u{200F}' || c == '\u{061C}' || ('\u{202A}' <= c && c
        <= '\u{202E}') || ('\u{2066}' <= c && c <= '\u{2069}') {
        Some(("bidi control", InvisibleAction::Remove))
    } else {
        None
    }
}

/// Is `c` in that kind of trouble?
fn is_troubled(t: Trouble, c: char) -> (r: bool)
    ensures
        r == is_in(t, c),
{
    match t {
        Trouble::Illegal => illegal_char_replacement(c).is_some(),
        Trouble::Control => c <= '\u{1F}' || c == '\u{7F}',
        Trouble::Invisible => invisible_info(c).is_some(),
    }
}

/// Makes the fix for one kind of trouble.
pub fn mend(t: Trouble, s: &str) -> (r: String)
    ensures
        r@ == mended(t, s@),
        r@ == s@.map_values(|c: char| stand_in(t, c)).flatten(),
{
    proof {
        law_mended_is_flat(t, s@);
    }
    let mut out = String::new();
    for c in it: s.chars()
        invariant
            it.seq() == s@,
            out@ == mended(t, s@.take(it.index())),
    {
        assert(s@.take(it.index() + 1).drop_last() == s@.take(it.index()));
        let ghost before = out@;
        if !is_troubled(t, c) {
            out.push(c);
        } else {
            match t {
                Trouble::Illegal => {
                    if let Some(with) = illegal_char_replacement(c) {
                        out.append(with);
                    }
                },
                Trouble::Control => {},
                Trouble::Invisible => {
                    if let Some((_, action)) = invisible_info(c) {
                        if action == InvisibleAction::ReplaceWithSpace {
                            out.push(' ');
                        }
                    }
                },
            }
        }
        assert(out@ == before + mended_char(t, c));
    }
    assert(s@.take(s@.len() as int) == s@);
    out
}

/// Is `c` among `chars`?
fn is_among(chars: &[char], c: char) -> (r: bool)
    ensures
        r == chars@.contains(c),
{
    let mut i: usize = 0;
    while i < chars.len()
        invariant
            i <= chars@.len(),
            forall|j: int| 0 <= j < i ==> #[trigger] chars@[j] != c,
        decreases chars@.len() - i,
    {
        if chars[i] == c {
            return true;
        }
        i = i + 1;
    }
    false
}

/// Counts the characters in trouble and collects each of them once.
fn survey(t: Trouble, s: &str) -> (r: (usize, Vec<char>))
    ensures
        r.0 == count_in(t, s@),
        r.1@ == kinds_in(t, s@),
{
    let mut count: usize = 0;
    let mut kinds: Vec<char> = Vec::new();
    let chars: Vec<char> = chars_of(s);
    let mut i: usize = 0;
    while i < chars.len()
        invariant
            i <= chars@.len(),
            chars@ == s@,
            count <= i,
            count == count_in(t, s@.take(i as int)),
            kinds@ == kinds_in(t, s@.take(i as int)),
        decreases chars@.len() - i,
    {
        let c: char = chars[i];
        assert(s@.take(i + 1).drop_last() == s@.take(i as int));
        if is_troubled(t, c) {
            count = count + 1;
            if !is_among(&kinds, c) {
                kinds.push(c);
            }
        }
        i = i + 1;
    }
    assert(s@.take(s@.len() as int) == s@);
    (count, kinds)
}

/// Lists the characters in trouble.
fn list_kinds(t: Trouble, kinds: &[char]) -> (r: String)
    ensures
        r@ == trouble_labels(t, kinds@),
{
    let mut out = String::new();
    let mut i: usize = 0;
    while i < kinds.len()
        invariant
            i <= kinds@.len(),
            out@ == trouble_labels(t, kinds@.take(i as int)),
        decreases kinds@.len() - i,
    {
        let c: char = kinds[i];
        assert(kinds@.take(i + 1).drop_last() == kinds@.take(i as int));
        if i > 0 {
            out.append(", ");
        }
        let ghost before = out@;
        match t {
            Trouble::Illegal => {
                out.append("`");
                out.push(c);
                out.append("`");
            },
            Trouble::Control => {
                push_code_point(&mut out, c);
            },
            Trouble::Invisible => {
                if let Some((label, _)) = invisible_info(c) {
                    out.append(label);
                } else {
                    out.append("bidi control");
                }
                out.append(" ");
                push_code_point(&mut out, c);
            },
        }
        assert(out@ == before + trouble_label(t, c));
        i = i + 1;
    }
    assert(kinds@.take(kinds@.len() as int) == kinds@);
    out
}

pub open spec fn illegal_note(name: Seq<char>) -> Option<Note> {
    let kinds = kinds_in(Trouble::Illegal, name);
    if kinds.len() == 0 {
        None
    } else {
        Some(
            Note {
                check: row(1),
                message: "`"@ + shown_text(name) + "` contains "@ + decimal(kinds.len())
                    + " Windows-forbidden character(s): "@ + trouble_labels(
                    Trouble::Illegal,
                    kinds,
                ),
                fix: Some(mended(Trouble::Illegal, name)),
            },
        )
    }
}

fn check_illegal_chars(name: &str) -> (r: Option<NameFinding>)
    ensures
        note_of(r) == illegal_note(name@),
{
    let (_, kinds) = survey(Trouble::Illegal, name);
    if kinds.len() == 0 {
        return None;
    }
    let mut message: String = "`".to_owned();
    message.append(&show(name));
    message.append("` contains ");
    push_decimal(&mut message, kinds.len());
    message.append(" Windows-forbidden character(s): ");
    message.append(&list_kinds(Trouble::Illegal, &kinds));
    Some(NameFinding::new(1, message, Some(mend(Trouble::Illegal, name))))
}

pub open spec fn control_note(name: Seq<char>) -> Option<Note> {
    let count = count_in(Trouble::Control, name);
    if count == 0 {
        None
    } else {
        Some(
            Note {
                check: row(2),
                message: "`"@ + shown_text(name) + "` contains "@ + decimal(count)
                    + " control character(s): "@ + trouble_labels(
                    Trouble::Control,
                    kinds_in(Trouble::Control, name),
                ),
                fix: Some(mended(Trouble::Control, name)),
            },
        )
    }
}

fn check_control_chars(name: &str) -> (r: Option<NameFinding>)
    ensures
        note_of(r) == control_note(name@),
{
    let (count, kinds) = survey(Trouble::Control, name);
    if count == 0 {
        return None;
    }
    let mut message: String = "`".to_owned();
    message.append(&show(name));
    message.append("` contains ");
    push_decimal(&mut message, count);
    message.append(" control character(s): ");
    message.append(&list_kinds(Trouble::Control, &kinds));
    Some(NameFinding::new(2, message, Some(mend(Trouble::Control, name))))
}

pub open spec fn invisible_note(name: Seq<char>) -> Option<Note> {
    let count = count_in(Trouble::Invisible, name);
    if count == 0 {
        None
    } else {
        Some(
            Note {
                check: row(8),
                message: "`"@ + shown_text(name) + "` contains "@ + decimal(count)
                    + " invisible or lookalike character(s): "@ + trouble_labels(
                    Trouble::Invisible,
                    kinds_in(Trouble::Invisible, name),
                ),
                fix: Some(mended(Trouble::Invisible, name)),
            },
        )
    }
}

fn check_invisible(name: &str) -> (r: Option<NameFinding>)
    ensures
        note_of(r) == invisible_note(name@),
{
    let (count, kinds) = survey(Trouble::Invisible, name);
    if count == 0 {
        return None;
    }
    let mut message: String = "`".to_owned();
    message.append(&show(name));
    message.append("` contains ");
    push_decimal(&mut message, count);
    message.append(" invisible or lookalike character(s): ");
    message.append(&list_kinds(Trouble::Invisible, &kinds));
    Some(NameFinding::new(8, message, Some(mend(Trouble::Invisible, name))))
}

// ---------------------------------------------------------------------------
// Spaces and dots at the ends
// ---------------------------------------------------------------------------
pub open spec fn trailing_note(name: Seq<char>) -> Option<Note> {
    if name.len() > 0 && (name.last() == '.' || name.last() == ' ') {
        Some(
            Note {
                check: row(3),
                message: "`"@ + shown_text(name) + "` ends with a "@ + (if name.last() == '.' {
                    "dot"@
                } else {
                    "space"@
                })
                    + "; Windows silently strips it, so the stored and visible names disagree"@,
                fix: Some(
                    if trim_end(name).len() == 0 {
                        "_"@
                    } else {
                        trim_end(name)
                    },
                ),
            },
        )
    } else {
        None
    }
}

fn check_trailing(name: &str) -> (r: Option<NameFinding>)
    ensures
        note_of(r) == trailing_note(name@),
{
    let n: usize = name.unicode_len();
    if n == 0 {
        return None;
    }
    let last: char = name.get_char(n - 1);
    if last != '.' && last != ' ' {
        return None;
    }
    let what: &str = if last == '.' {
        "dot"
    } else {
        "space"
    };
    let trimmed: &str = trimmed_end(name);
    let fixed: &str = if trimmed.unicode_len() == 0 {
        "_"
    } else {
        trimmed
    };
    let mut message: String = "`".to_owned();
    message.append(&show(name));
    message.append("` ends with a ");
    message.append(what);
    message.append("; Windows silently strips it, so the stored and visible names disagree");
    Some(NameFinding::new(3, message, Some(fixed.to_owned())))
}

pub open spec fn leading_note(name: Seq<char>) -> Option<Note> {
    if name.len() > 0 && name[0] == ' ' {
        Some(
            Note {
                check: row(4),
                message: "`"@ + shown_text(name)
                    + "` begins with a space; Explorer and OneDrive reject or hide such names"@,
                fix: Some(trim_start(name)),
            },
        )
    } else {
        None
    }
}

fn check_leading_space(name: &str) -> (r: Option<NameFinding>)
    ensures
        note_of(r) == leading_note(name@),
{
    if name.unicode_len() == 0 || name.get_char(0) != ' ' {
        return None;
    }
    let mut message: String = "`".to_owned();
    message.append(&show(name));
    message.append("` begins with a space; Explorer and OneDrive reject or hide such names");
    Some(NameFinding::new(4, message, Some(trimmed_start(name).to_owned())))
}

// ---------------------------------------------------------------------------
// Normalization
// ---------------------------------------------------------------------------
pub open spec fn non_nfc_note(name: Seq<char>) -> Option<Note> {
    if nfc(name) == name {
        None
    } else {
        Some(
            Note {
                check: row(7),
                message: "`"@ + shown_text(name) + "` is not NFC-normalized ("@ + decimal(
                    name.len(),
                ) + " code points; the NFC form has "@ + decimal(nfc(name).len())
                    + "); byte-comparing sync tools treat the two encodings as different files"@,
                fix: Some(nfc(name)),
            },
        )
    }
}

fn check_non_nfc(name: &str) -> (r: Option<NameFinding>)
    ensures
        note_of(r) == non_nfc_note(name@),
{
    if is_nfc(name) {
        return None;
    }
    let form: String = to_nfc(name);
    let mut message: String = "`".to_owned();
    message.append(&show(name));
    message.append("` is not NFC-normalized (");
    push_decimal(&mut message, name.unicode_len());
    message.append(" code points; the NFC form has ");
    push_decimal(&mut message, form.as_str().unicode_len());
    message.append("); byte-comparing sync tools treat the two encodings as different files");
    Some(NameFinding::new(7, message, Some(form)))
}

// ---------------------------------------------------------------------------
// Length
// ---------------------------------------------------------------------------
/// Both budgets of a single component: this many UTF-8 bytes (ext4 and friends)
/// and this many UTF-16 code units (NTFS, and macOS at the API layer).
pub const COMPONENT_LIMIT: usize = 255;

/// The most characters of an extension, its dot included.
pub const EXTENSION_LIMIT: usize = 16;

/// Does `s` fit both budgets of a component?
pub open spec fn fits(s: Seq<char>) -> bool {
    utf8_len(s) <= COMPONENT_LIMIT && utf16_units(s) <= COMPONENT_LIMIT
}

/// Where the extension of `name` begins: at its last dot, or at its end if there
/// is no dot behind the first character or what follows is too long.
pub open spec fn extension_start(name: Seq<char>) -> int {
    let dot = last_dot(name);
    if dot > 0 && name.len() - dot <= EXTENSION_LIMIT {
        dot
    } else {
        name.len() as int
    }
}

/// `name` without its extension.
pub open spec fn stem_of(name: Seq<char>) -> Seq<char> {
    name.take(extension_start(name))
}

/// The extension of `name`, with its dot.
pub open spec fn extension_of(name: Seq<char>) -> Seq<char> {
    name.skip(extension_start(name))
}

/// The longest prefix of `stem` that fits the budgets together with `ext`.
pub open spec fn fitting(stem: Seq<char>, ext: Seq<char>) -> Seq<char>
    decreases stem.len(),
{
    if stem.len() == 0 || fits(stem + ext) {
        stem
    } else {
        fitting(stem.drop_last(), ext)
    }
}

/// `name` cut so that it fits, with its extension kept.
pub open spec fn truncated(name: Seq<char>) -> Seq<char> {
    let kept = trim_end(fitting(stem_of(name), extension_of(name)));
    let ext = extension_of(name);
    if kept.len() == 0 && ext.len() == 0 {
        "_"@
    } else {
        kept + ext
    }
}

/// Splits a name into stem and extension, the latter with its dot. Dotfiles have
/// no extension, and one of more than sixteen characters is part of the stem.
pub fn split_extension<'a>(name: &'a str) -> (r: (&'a str, &'a str))
    ensures
        r.0@ == stem_of(name@),
        r.1@ == extension_of(name@),
{
    let chars: Vec<char> = chars_of(name);
    let n: usize = chars.len();
    let mut dot: usize = n;
    assert(name@.take(n as int) == name@);
    while dot > 0 && chars[dot - 1] != '.'
        invariant
            dot <= n == chars@.len(),
            chars@ == name@,
            last_dot(name@) == last_dot(name@.take(dot as int)),
        decreases dot,
    {
        assert(name@.take(dot as int).drop_last() == name@.take(dot - 1));
        dot = dot - 1;
    }
    assert(last_dot(name@) == dot - 1);
    assert(name@.subrange(0, n as int) == name@.take(n as int));
    assert(name@.subrange(n as int, n as int) == name@.skip(n as int));
    if dot > 1 {
        let at: usize = dot - 1;
        assert(name@.subrange(0, at as int) == name@.take(at as int));
        assert(name@.subrange(at as int, n as int) == name@.skip(at as int));
        if n - at <= EXTENSION_LIMIT {
            return (name.substring_char(0, at), name.substring_char(at, n));
        }
    }
    (name.substring_char(0, n), name.substring_char(n, n))
}

/// Cuts `name` so that it fits both component budgets, keeping the extension and
/// never splitting a character.
pub fn truncate_component(name: &str) -> (r: String)
    ensures
        r@ == truncated(name@),
{
    let (stem, ext) = split_extension(name);
    proof {
        lemma_last_dot(name@);
        assert(name@ == stem@ + ext@);
        lemma_utf8_len_concat(stem@, ext@);
        lemma_utf16_concat(stem@, ext@);
        lemma_utf16_bound(name@);
    }
    let total: usize = byte_len(name);
    let chars: Vec<char> = chars_of(stem);
    let mut n: usize = chars.len();
    let mut bytes: usize = total;
    let mut units: usize = utf16_len(name);
    assert(stem@.take(n as int) == stem@);
    while n > 0 && (bytes > COMPONENT_LIMIT || units > COMPONENT_LIMIT)
        invariant
            n <= chars@.len(),
            chars@ == stem@,
            bytes == utf8_len(stem@.take(n as int)) + utf8_len(ext@),
            units == utf16_units(stem@.take(n as int)) + utf16_units(ext@),
            fitting(stem@, ext@) == fitting(stem@.take(n as int), ext@),
        decreases n,
    {
        let c: char = chars[n - 1];
        proof {
            let t = stem@.take(n as int);
            assert(t.drop_last() == stem@.take(n - 1));
            assert(t.last() == c);
            lemma_utf8_len_concat(t, ext@);
            lemma_utf16_concat(t, ext@);
        }
        bytes = bytes - if c <= '\u{7F}' {
            1
        } else if c <= '\u{7FF}' {
            2
        } else if c <= '\u{FFFF}' {
            3
        } else {
            4
        };
        units = units - if c <= '\u{FFFF}' {
            1
        } else {
            2
        };
        n = n - 1;
    }
    proof {
        let t = stem@.take(n as int);
        lemma_utf8_len_concat(t, ext@);
        lemma_utf16_concat(t, ext@);
        assert(fitting(stem@, ext@) == t);
        assert(stem@.subrange(0, n as int) == t);
    }
    let kept: &str = trimmed_end(stem.substring_char(0, n));
    if kept.unicode_len() == 0 && ext.unicode_len() == 0 {
        return "_".to_owned();
    }
    let mut out: String = kept.to_owned();
    out.append(ext);
    out
}

pub open spec fn length_note(name: Seq<char>) -> Option<Note> {
    if fits(name) {
        None
    } else {
        Some(
            Note {
                check: row(9),
                message: "name is "@ + decimal(utf8_len(name)) + " UTF-8 bytes / "@ + decimal(
                    utf16_units(name),
                ) + " UTF-16 units; the portable limit is "@ + decimal(COMPONENT_LIMIT as nat)
                    + " of each"@,
                fix: Some(truncated(name)),
            },
        )
    }
}

fn check_component_length(name: &str) -> (r: Option<NameFinding>)
    ensures
        note_of(r) == length_note(name@),
{
    let bytes: usize = byte_len(name);
    let units: usize = utf16_len(name);
    if bytes <= COMPONENT_LIMIT && units <= COMPONENT_LIMIT {
        return None;
    }
    let mut message: String = "name is ".to_owned();
    push_decimal(&mut message, bytes);
    message.append(" UTF-8 bytes / ");
    push_decimal(&mut message, units);
    message.append(" UTF-16 units; the portable limit is ");
    push_decimal(&mut message, COMPONENT_LIMIT);
    message.append(" of each");
    Some(NameFinding::new(9, message, Some(truncate_component(name))))
}

#[verifier::opaque]
pub open spec fn path_note(path: Seq<char>, max_path: nat) -> Option<Note> {
    if utf16_units(path) <= max_path {
        None
    } else {
        Some(
            Note {
                check: row(10),
                message: "relative path is "@ + decimal(utf16_units(path))
                    + " UTF-16 units, over the --max-path budget of "@ + decimal(max_path)
                    + "; Win32 MAX_PATH counts 260 for the absolute path"@,
                fix: None,
            },
        )
    }
}

/// Checks a whole relative path against the budget.
pub fn check_path_length(rel_path: &str, max_path: usize) -> (r: Option<NameFinding>)
    ensures
        note_of(r) == path_note(rel_path@, max_path as nat),
{
    reveal(path_note);
    let units: usize = utf16_len(rel_path);
    if units <= max_path {
        return None;
    }
    let mut message: String = "relative path is ".to_owned();
    push_decimal(&mut message, units);
    message.append(" UTF-16 units, over the --max-path budget of ");
    push_decimal(&mut message, max_path);
    message.append("; Win32 MAX_PATH counts 260 for the absolute path");
    Some(NameFinding::new(10, message, None))
}

// ---------------------------------------------------------------------------
// Names that cloud clients reserve
// ---------------------------------------------------------------------------
/// Why cloud clients refuse or skip a name, given in lowercase.
pub open spec fn cloud_reason(low: Seq<char>) -> Option<Seq<char>> {
    if low == "desktop.ini"@ {
        Some("rejected by OneDrive and silently skipped by Dropbox"@)
    } else if low == "thumbs.db"@ {
        Some("silently skipped by Dropbox"@)
    } else if low == ".ds_store"@ || low == "icon\r"@ {
        Some("macOS metadata; silently skipped by Dropbox"@)
    } else if low == ".dropbox"@ || low == ".dropbox.attr"@ {
        Some("reserved by the Dropbox client itself"@)
    } else if begins(low, "~$"@) {
        Some("Office lock-file prefix; skipped by OneDrive and Dropbox"@)
    } else if occurs("_vti_"@, low) {
        Some("rejected by OneDrive/SharePoint"@)
    } else {
        None
    }
}

/// Why cloud clients refuse or skip a name that reads `low` in lowercase.
pub fn cloud_reserved_lower(low: &str) -> (r: Option<&'static str>)
    ensures
        r is Some == cloud_reason(low@) is Some,
        r is Some ==> Some((r->0)@) == cloud_reason(low@),
{
    if same_text(low, "desktop.ini") {
        Some("rejected by OneDrive and silently skipped by Dropbox")
    } else if same_text(low, "thumbs.db") {
        Some("silently skipped by Dropbox")
    } else if same_text(low, ".ds_store") || same_text(low, "icon\r") {
        Some("macOS metadata; silently skipped by Dropbox")
    } else if same_text(low, ".dropbox") || same_text(low, ".dropbox.attr") {
        Some("reserved by the Dropbox client itself")
    } else if starts_with(low, "~$") {
        Some("Office lock-file prefix; skipped by OneDrive and Dropbox")
    } else if contains_text(low, "_vti_") {
        Some("rejected by OneDrive/SharePoint")
    } else {
        None
    }
}

/// Why cloud clients refuse or skip a name.
fn cloud_reserved_reason(name: &str) -> (r: Option<&'static str>)
    ensures
        r is Some == cloud_reason(fold_all(name@)) is Some,
        r is Some ==> Some((r->0)@) == cloud_reason(fold_all(name@)),
{
    cloud_reserved_lower(&lower(name))
}

pub open spec fn cloud_note(name: Seq<char>) -> Option<Note> {
    match cloud_reason(fold_all(name)) {
        Some(reason) => Some(
            Note {
                check: row(11),
                message: "`"@ + shown_text(name) + "` is "@ + reason
                    + "; if it holds real data it will quietly not sync"@,
                fix: None,
            },
        ),
        None => None,
    }
}

fn check_cloud_reserved(name: &str) -> (r: Option<NameFinding>)
    ensures
        note_of(r) == cloud_note(name@),
{
    match cloud_reserved_reason(name) {
        None => None,
        Some(reason) => {
            let mut message: String = "`".to_owned();
            message.append(&show(name));
            message.append("` is ");
            message.append(reason);
            message.append("; if it holds real data it will quietly not sync");
            Some(NameFinding::new(11, message, None))
        },
    }
}

// ---------------------------------------------------------------------------
// Names that are not text
// ---------------------------------------------------------------------------
pub open spec fn invalid_note(bytes: Seq<u8>) -> Note {
    let offset = valid_prefix(bytes);
    Note {
        check: row(12),
        message: "name is not valid UTF-8 (first invalid byte 0x"@ + numeral(
            bytes[offset as int] as nat,
            16,
            2,
            true,
        ) + " at offset "@ + decimal(offset)
            + "); macOS, Windows and every sync client require Unicode names"@,
        fix: Some(patched(bytes)),
    }
}

/// The finding about a name that is not valid UTF-8 from `offset` on.
fn invalid_finding(bytes: &[u8], offset: usize) -> (r: NameFinding)
    requires
        !valid_utf8(bytes@),
        offset == valid_prefix(bytes@),
    ensures
        r@ == invalid_note(bytes@),
{
    proof {
        lemma_valid_prefix(bytes@);
    }
    let mut message: String = "name is not valid UTF-8 (first invalid byte 0x".to_owned();
    push_numeral(&mut message, bytes[offset] as u128, 16, 2, true);
    message.append(" at offset ");
    push_decimal(&mut message, offset);
    message.append("); macOS, Windows and every sync client require Unicode names");
    NameFinding::new(12, message, Some(patch(bytes)))
}

// ---------------------------------------------------------------------------
// All checks of one name
// ---------------------------------------------------------------------------
/// The note as a sequence of at most one.
pub open spec fn at_most_one(n: Option<Note>) -> Seq<Note> {
    match n {
        Some(note) => seq![note],
        None => seq![],
    }
}

/// What there is to say of a name that is text, in the order of the catalog.
pub open spec fn text_notes(name: Seq<char>) -> Seq<Note> {
    at_most_one(reserved_note(name)) + at_most_one(illegal_note(name)) + at_most_one(
        control_note(name),
    ) + at_most_one(trailing_note(name)) + at_most_one(leading_note(name)) + at_most_one(
        non_nfc_note(name),
    ) + at_most_one(invisible_note(name)) + at_most_one(length_note(name)) + at_most_one(
        cloud_note(name),
    )
}

/// Are `bytes` path syntax rather than a name?
pub open spec fn is_syntax(bytes: Seq<u8>) -> bool {
    bytes.len() == 0 || bytes == seq![0x2Eu8] || bytes == seq![0x2Eu8, 0x2Eu8]
}

/// What there is to say of a name.
#[verifier::opaque]
pub open spec fn component_notes(bytes: Seq<u8>) -> Seq<Note> {
    if is_syntax(bytes) {
        seq![]
    } else if !valid_utf8(bytes) {
        seq![invalid_note(bytes)]
    } else {
        text_notes(decode_utf8(bytes))
    }
}

/// The views of findings.
pub open spec fn notes_of(v: Seq<NameFinding>) -> Seq<Note> {
    v.map_values(|f: NameFinding| f@)
}

/// Appends a finding, if there is one.
fn push_some(out: &mut Vec<NameFinding>, f: Option<NameFinding>)
    ensures
        notes_of(final(out)@) == notes_of(old(out)@) + at_most_one(note_of(f)),
{
    if let Some(n) = f {
        out.push(n);
        assert(notes_of(out@) == notes_of(old(out)@).push(n@));
    }
    assert(notes_of(out@) == notes_of(old(out)@) + at_most_one(note_of(f)));
}

/// Runs every check of a single name, in catalog order. `.` and `..` are path
/// syntax, not names, and are never flagged.
pub fn check_component(bytes: &[u8]) -> (r: Vec<NameFinding>)
    ensures
        notes_of(r@) == component_notes(bytes@),
{
    reveal(component_notes);
    let mut out: Vec<NameFinding> = Vec::new();
    if bytes.len() == 0 || (bytes[0] == 0x2E && (bytes.len() == 1 || (bytes.len() == 2 && bytes[1]
        == 0x2E))) {
        assert(bytes@.len() == 1 ==> bytes@ == seq![0x2Eu8]);
        assert(bytes@.len() == 2 ==> bytes@ == seq![0x2Eu8, 0x2Eu8]);
        assert(notes_of(out@) == component_notes(bytes@));
        return out;
    }
    assert(!is_syntax(bytes@));
    match decode(bytes) {
        Err(offset) => {
            out.push(invalid_finding(bytes, offset));
            assert(notes_of(out@) == component_notes(bytes@));
        },
        Ok(name) => {
            push_some(&mut out, check_reserved_name(&name));
            push_some(&mut out, check_illegal_chars(&name));
            push_some(&mut out, check_control_chars(&name));
            push_some(&mut out, check_trailing(&name));
            push_some(&mut out, check_leading_space(&name));
            push_some(&mut out, check_non_nfc(&name));
            push_some(&mut out, check_invisible(&name));
            push_some(&mut out, check_component_length(&name));
            push_some(&mut out, check_cloud_reserved(&name));
            assert(notes_of(out@) == component_notes(bytes@));
        },
    }
    out
}

// ---------------------------------------------------------------------------
// Collisions among siblings
// ---------------------------------------------------------------------------
/// A collision: the name at `index` collides with the earlier name at
/// `first_index`.
pub struct CollisionFinding {
    pub index: usize,
    pub first_index: usize,
    pub finding: NameFinding,
}

/// What a collision finding says.
pub ghost struct Clash {
    pub index: int,
    pub first_index: int,
    pub note: Note,
}

impl View for CollisionFinding {
    type V = Clash;

    open spec fn view(&self) -> Clash {
        Clash {
            index: self.index as int,
            first_index: self.first_index as int,
            note: self.finding@,
        }
    }
}

/// The views of collision findings.
pub open spec fn clashes_of(v: Seq<CollisionFinding>) -> Seq<Clash> {
    v.map_values(|f: CollisionFinding| f@)
}

/// The views of names.
pub open spec fn bytes_of(names: Seq<&[u8]>) -> Seq<Seq<u8>> {
    names.map_values(|n: &[u8]| n@)
}

/// Is the `j`-th name text with that comparison key?
pub open spec fn has_key(names: Seq<Seq<u8>>, j: int, key: Seq<char>) -> bool {
    valid_utf8(names[j]) && casefold(decode_utf8(names[j])) == key
}

/// The first of the names before the `k`-th that has that key, or -1.
pub open spec fn first_with(names: Seq<Seq<u8>>, key: Seq<char>, k: int) -> int
    decreases k,
{
    if k <= 0 {
        -1
    } else {
        let f = first_with(names, key, k - 1);
        if f >= 0 {
            f
        } else if has_key(names, k - 1, key) {
            k - 1
        } else {
            -1
        }
    }
}

/// What there is to say of two names with one key.
#[verifier::opaque]
pub open spec fn clash_note(this: Seq<u8>, first: Seq<u8>) -> Note {
    if nfc(decode_utf8(this)) == nfc(decode_utf8(first)) {
        Note {
            check: row(6),
            message: "`"@ + display(this) + "` ("@ + decimal(decode_utf8(this).len())
                + " code points) and sibling `"@ + display(first) + "` ("@ + decimal(
                decode_utf8(first).len(),
            )
                + " code points) are the same text in different Unicode encodings; macOS and sync tools see one file"@,
            fix: None,
        }
    } else {
        Note {
            check: row(5),
            message: "`"@ + display(this) + "` collides with sibling `"@ + display(first)
                + "` on case-insensitive filesystems (Windows, macOS default)"@,
            fix: None,
        }
    }
}

/// The collision of the `i`-th name with an earlier one, as a sequence of at most
/// one.
pub open spec fn clash_at(names: Seq<Seq<u8>>, i: int) -> Seq<Clash> {
    let f = first_with(names, casefold(decode_utf8(names[i])), i);
    if valid_utf8(names[i]) && f >= 0 {
        seq![Clash { index: i, first_index: f, note: clash_note(names[i], names[f]) }]
    } else {
        seq![]
    }
}

/// The collisions among the first `k` names.
pub open spec fn clashes(names: Seq<Seq<u8>>, k: int) -> Seq<Clash>
    decreases k,
{
    if k <= 0 {
        seq![]
    } else {
        clashes(names, k - 1) + clash_at(names, k - 1)
    }
}

/// The first name with a key has that key, and none before it has.
pub proof fn lemma_first_with(names: Seq<Seq<u8>>, key: Seq<char>, k: int)
    ensures
        -1 <= first_with(names, key, k),
        first_with(names, key, k) >= 0 ==> first_with(names, key, k) < k && has_key(
            names,
            first_with(names, key, k),
            key,
        ),
        forall|j: int| 0 <= j < k && #[trigger] has_key(names, j, key) ==> 0 <= first_with(
            names,
            key,
            k,
        ) <= j,
    decreases k,
{
    if k > 0 {
        lemma_first_with(names, key, k - 1);
    }
}

/// The name that the collision groups are keyed by.
struct Kept {
    key: String,
    form: String,
    index: usize,
}

/// The finding about two names with one key.
fn clash_finding(this: &[u8], first: &[u8], same_form: bool) -> (r: NameFinding)
    requires
        valid_utf8(this@),
        valid_utf8(first@),
        same_form == (nfc(decode_utf8(this@)) == nfc(decode_utf8(first@))),
    ensures
        r@ == clash_note(this@, first@),
{
    reveal(clash_note);
    let mut message: String = "`".to_owned();
    message.append(&display_name(this));
    if same_form {
        message.append("` (");
        push_decimal(&mut message, decode_lossy(this).as_str().unicode_len());
        message.append(" code points) and sibling `");
        message.append(&display_name(first));
        message.append("` (");
        push_decimal(&mut message, decode_lossy(first).as_str().unicode_len());
        message.append(
            " code points) are the same text in different Unicode encodings; macOS and sync tools see one file",
        );
        NameFinding::new(6, message, None)
    } else {
        message.append("` collides with sibling `");
        message.append(&display_name(first));
        message.append("` on case-insensitive filesystems (Windows, macOS default)");
        NameFinding::new(5, message, None)
    }
}

/// Finds case collisions and normalization collisions among sibling names. The
/// first name of a colliding group is kept, the later ones are reported. A pair
/// that is equal in NFC is reported as a normalization collision alone.
pub fn check_siblings(names: &[&[u8]]) -> (r: Vec<CollisionFinding>)
    ensures
        clashes_of(r@) == clashes(bytes_of(names@), names@.len() as int),
{
    let ghost all = bytes_of(names@);
    let mut kept: Vec<Kept> = Vec::new();
    let mut out: Vec<CollisionFinding> = Vec::new();
    let mut i: usize = 0;
    assert(clashes_of(out@) == clashes(all, 0));
    while i < names.len()
        invariant
            i <= names@.len(),
            all == bytes_of(names@),
            clashes_of(out@) == clashes(all, i as int),
            forall|e: int|
                0 <= e < kept@.len() ==> {
                    &&& (#[trigger] kept@[e]).index < i
                    &&& has_key(all, kept@[e].index as int, kept@[e].key@)
                    &&& kept@[e].form@ == nfc(decode_utf8(all[kept@[e].index as int]))
                    &&& first_with(all, kept@[e].key@, kept@[e].index as int) < 0
                },
            forall|j: int|
                0 <= j < i && #[trigger] valid_utf8(all[j]) ==> exists|e: int|
                    0 <= e < kept@.len() && (#[trigger] kept@[e]).key@ == casefold(
                        decode_utf8(all[j]),
                    ),
        decreases names@.len() - i,
    {
        let raw: &[u8] = names[i];
        assert(all[i as int] == raw@);
        if let Ok(name) = decode(raw) {
            let form: String = to_nfc(&name);
            let key: String = casefold_key(&name);
            let mut e: usize = 0;
            while e < kept.len() && !same_text(&kept[e].key, &key)
                invariant
                    e <= kept@.len(),
                    forall|d: int| 0 <= d < e ==> (#[trigger] kept@[d]).key@ != key@,
                decreases kept@.len() - e,
            {
                e = e + 1;
            }
            let ghost before = out@;
            if e < kept.len() {
                let first: usize = kept[e].index;
                assert(kept@[e as int].key@ == key@);
                proof {
                    lemma_first_with(all, key@, first as int);
                    lemma_first_with(all, key@, i as int);
                    assert(has_key(all, first as int, key@));
                    assert(first_with(all, key@, i as int) == first);
                    assert(all[first as int] == names@[first as int]@);
                }
                out.push(
                    CollisionFinding {
                        index: i,
                        first_index: first,
                        finding: clash_finding(raw, names[first], same_text(&kept[e].form, &form)),
                    },
                );
                assert(clashes_of(out@) == clashes_of(before) + clash_at(all, i as int));
                assert forall|j: int| 0 <= j < i + 1 && #[trigger] valid_utf8(
                    all[j],
                ) implies exists|e2: int|
                    0 <= e2 < kept@.len() && (#[trigger] kept@[e2]).key@ == casefold(
                        decode_utf8(all[j]),
                    ) by {
                    if j == i {
                        assert(kept@[e as int].key@ == casefold(decode_utf8(all[j])));
                    }
                }
            } else {
                proof {
                    lemma_first_with(all, key@, i as int);
                    let f = first_with(all, key@, i as int);
                    if f >= 0 {
                        assert(valid_utf8(all[f]));
                    }
                    assert(clash_at(all, i as int) == Seq::<Clash>::empty());
                    assert(clashes(all, i as int) + clash_at(all, i as int) == clashes(
                        all,
                        i as int,
                    ));
                }
                let ghost old_kept = kept@;
                kept.push(Kept { key, form, index: i });
                assert forall|j: int| 0 <= j < i + 1 && #[trigger] valid_utf8(
                    all[j],
                ) implies exists|e2: int|
                    0 <= e2 < kept@.len() && (#[trigger] kept@[e2]).key@ == casefold(
                        decode_utf8(all[j]),
                    ) by {
                    if j < i {
                        let e2 = choose|e2: int|
                            0 <= e2 < old_kept.len() && (#[trigger] old_kept[e2]).key@ == casefold(
                                decode_utf8(all[j]),
                            );
                        assert(kept@[e2] == old_kept[e2]);
                    } else {
                        assert(kept@[old_kept.len() as int].key@ == casefold(decode_utf8(all[j])));
                    }
                }
            }
        } else {
            assert(clash_at(all, i as int) == Seq::<Clash>::empty());
            assert(clashes(all, i as int) + clash_at(all, i as int) == clashes(all, i as int));
        }
        i = i + 1;
    }
    out
}

} // verus!
