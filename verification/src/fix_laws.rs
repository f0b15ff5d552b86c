//! Sanitizing a name is idempotent.

use vstd::prelude::*;
use vstd::utf8::{encode_utf8, encode_utf8_decode_utf8, encode_utf8_valid_utf8, valid_utf8};

use crate::checks::{
    device_stem, extension_of, extension_start, fits, fitting, is_ascii_control, is_illegal, is_in,
    is_invisible, is_reserved, mended, mended_char, stem_of, truncated, Trouble, COMPONENT_LIMIT,
    EXTENSION_LIMIT,
};
use crate::engine::Selection;
use crate::fixname::{
    is_dots, lemma_reserved_len, normalized, read, released, sanitized, sanitized_text, shortened,
    trimmed, unreserved, without_trouble,
};
use crate::text::{
    first_dot, is_stripped, lemma_first_dot, lemma_first_dot_at, lemma_last_dot, lemma_trim_end,
    lemma_trim_start, lemma_utf8_len_concat, trim_end, trim_start, upper, upper_all, utf8_len,
};
use crate::unicode::{lemma_utf16_concat, nfc, utf16_units};
use crate::unicode_clean::{
    law_nfc_adds_no_control, law_nfc_adds_no_illegal, law_nfc_adds_no_invisible,
};
use crate::unicode_cuts::{law_nfc_behind_space, law_nfc_prefix};
use crate::unicode_laws::{is_boundary, law_ascii_is_nfc, law_nfc_idempotent, law_nfc_splits};

verus! {

/// Does `s` hold no character in that kind of trouble?
pub open spec fn is_free_of(t: Trouble, s: Seq<char>) -> bool {
    forall|i: int| 0 <= i < s.len() ==> !is_in(t, #[trigger] s[i])
}

/// Is there nothing left for the selected fixes to do on `s`?
pub open spec fn is_clean(s: Seq<char>, sel: Selection) -> bool {
    &&& s.len() > 0
    &&& sel.runs(2) ==> is_free_of(Trouble::Control, s)
    &&& sel.runs(1) ==> is_free_of(Trouble::Illegal, s)
    &&& sel.runs(8) ==> is_free_of(Trouble::Invisible, s)
    &&& sel.runs(7) ==> nfc(s) == s
    &&& sel.runs(4) ==> s[0] != ' '
    &&& sel.runs(3) ==> !is_stripped(s.last())
    &&& sel.runs(9) ==> fits(s)
    &&& sel.runs(0) ==> !is_reserved(device_stem(s))
}

// ---------------------------------------------------------------------------
// Characters
// ---------------------------------------------------------------------------
proof fn lemma_mended_char(t: Trouble, u: Trouble, c: char)
    requires
        u == t || !is_in(u, c),
    ensures
        is_free_of(u, mended_char(t, c)),
{
    reveal_strlit("-");
    reveal_strlit("'");
    reveal_strlit("(");
    reveal_strlit(")");
    reveal_strlit("");
}

/// A mended text is free of that trouble, and of any other that it was free of.
pub proof fn lemma_mended(t: Trouble, u: Trouble, s: Seq<char>)
    requires
        u == t || is_free_of(u, s),
    ensures
        is_free_of(u, mended(t, s)),
    decreases s.len(),
{
    if s.len() > 0 {
        let v = s.drop_last();
        assert forall|i: int| u != t && 0 <= i < v.len() implies !is_in(u, #[trigger] v[i]) by {
            assert(v[i] == s[i]);
        }
        lemma_mended(t, u, v);
        if u != t {
            assert(!is_in(u, s[s.len() - 1]));
        }
        lemma_mended_char(t, u, s.last());
    }
}

pub proof fn lemma_mended_free(t: Trouble, s: Seq<char>)
    requires
        is_free_of(t, s),
    ensures
        mended(t, s) == s,
    decreases s.len(),
{
    if s.len() > 0 {
        let v = s.drop_last();
        assert forall|i: int| 0 <= i < v.len() implies !is_in(t, #[trigger] v[i]) by {
            assert(v[i] == s[i]);
        }
        lemma_mended_free(t, v);
        assert(!is_in(t, s[s.len() - 1]));
        assert(v + seq![s.last()] == s);
    }
}

/// Normalization keeps a text free of trouble.
pub proof fn lemma_nfc_free(t: Trouble, s: Seq<char>)
    requires
        is_free_of(t, s),
    ensures
        is_free_of(t, nfc(s)),
{
    assert forall|i: int| 0 <= i < s.len() implies !is_in(t, #[trigger] s[i]) by {}
    match t {
        Trouble::Control => {
            assert forall|i: int| 0 <= i < s.len() implies !is_ascii_control(#[trigger] s[i]) by {
                assert(!is_in(t, s[i]));
            }
            law_nfc_adds_no_control(s);
        },
        Trouble::Illegal => {
            assert forall|i: int| 0 <= i < s.len() implies !is_illegal(#[trigger] s[i]) by {
                assert(!is_in(t, s[i]));
            }
            law_nfc_adds_no_illegal(s);
        },
        Trouble::Invisible => {
            assert forall|i: int| 0 <= i < s.len() implies !is_invisible(#[trigger] s[i]) by {
                assert(!is_in(t, s[i]));
            }
            law_nfc_adds_no_invisible(s);
        },
    }
}

/// Are all characters of `r` characters of `s`, or underscores?
pub open spec fn is_drawn(r: Seq<char>, s: Seq<char>) -> bool {
    forall|i: int| 0 <= i < r.len() ==> s.contains(#[trigger] r[i]) || r[i] == '_'
}

pub proof fn lemma_drawn_free(t: Trouble, r: Seq<char>, s: Seq<char>)
    requires
        is_drawn(r, s),
        is_free_of(t, s),
    ensures
        is_free_of(t, r),
{
    assert forall|i: int| 0 <= i < r.len() implies !is_in(t, #[trigger] r[i]) by {
        if s.contains(r[i]) {
            let j = choose|j: int| 0 <= j < s.len() && s[j] == r[i];
            assert(!is_in(t, s[j]));
        }
    }
}

// ---------------------------------------------------------------------------
// Form
// ---------------------------------------------------------------------------
/// Trimming at the start keeps NFC.
pub proof fn lemma_trim_start_nfc(s: Seq<char>)
    requires
        nfc(s) == s,
    ensures
        nfc(trim_start(s)) == trim_start(s),
    decreases s.len(),
{
    if s.len() > 0 && s[0] == ' ' {
        let u = s.skip(1);
        assert(s == seq![' '] + u);
        law_nfc_behind_space(u);
        assert(nfc(u) == (seq![' '] + nfc(u)).skip(1));
        assert((seq![' '] + u).skip(1) == u);
        lemma_trim_start_nfc(u);
    }
}

/// Where a text in NFC is cut before a character below U+00C0, both parts are in
/// NFC.
pub proof fn lemma_nfc_parts(s: Seq<char>, k: int)
    requires
        nfc(s) == s,
        0 <= k <= s.len(),
        k < s.len() ==> is_boundary(s[k]),
    ensures
        nfc(s.take(k)) == s.take(k),
        nfc(s.skip(k)) == s.skip(k),
{
    law_nfc_prefix(s, k);
    let a = s.take(k);
    let b = s.skip(k);
    assert(s == a + b);
    if k < s.len() {
        law_nfc_splits(a, b);
        assert((a + nfc(b)).skip(k) == nfc(b));
        assert((a + b).skip(k) == b);
    } else {
        law_ascii_is_nfc(b);
    }
}

/// A text in NFC and one that begins with a character below U+00C0 make one in
/// NFC.
pub proof fn lemma_nfc_joint(a: Seq<char>, b: Seq<char>)
    requires
        nfc(a) == a,
        nfc(b) == b,
        b.len() > 0 ==> is_boundary(b[0]),
    ensures
        nfc(a + b) == a + b,
{
    if b.len() > 0 {
        law_nfc_splits(a, b);
    } else {
        assert(a + b == a);
    }
}

proof fn lemma_widths(s: Seq<char>)
    ensures
        utf8_len(s) <= 4 * s.len(),
        utf16_units(s) <= 2 * s.len(),
    decreases s.len(),
{
    if s.len() > 0 {
        lemma_widths(s.drop_last());
    }
}

/// A short text fits.
pub proof fn lemma_short_fits(s: Seq<char>)
    requires
        s.len() <= 60,
    ensures
        fits(s),
        utf8_len(s) < COMPONENT_LIMIT,
        utf16_units(s) < COMPONENT_LIMIT,
{
    lemma_widths(s);
}

pub proof fn lemma_fitting(stem: Seq<char>, ext: Seq<char>)
    requires
        fits(ext),
    ensures
        fitting(stem, ext).len() <= stem.len(),
        fitting(stem, ext) == stem.take(fitting(stem, ext).len() as int),
        fits(fitting(stem, ext) + ext),
    decreases stem.len(),
{
    if stem.len() == 0 {
        assert(stem + ext == ext);
        assert(stem.take(0) == stem);
    } else if fits(stem + ext) {
        assert(stem.take(stem.len() as int) == stem);
    } else {
        let u = stem.drop_last();
        lemma_fitting(u, ext);
        let n = fitting(u, ext).len() as int;
        assert(u.take(n) == stem.take(n));
    }
}

/// What there is to know of the parts of a name.
pub proof fn lemma_split(s: Seq<char>)
    ensures
        0 <= extension_start(s) <= s.len(),
        s == stem_of(s) + extension_of(s),
        extension_of(s).len() <= EXTENSION_LIMIT,
        extension_of(s).len() > 0 ==> extension_of(s)[0] == '.' && stem_of(s).len() > 0,
        s.len() > 0 ==> stem_of(s).len() > 0,
{
    lemma_last_dot(s);
    assert(s == stem_of(s) + extension_of(s));
}

/// A text that is cut to the budgets fits them, and the cut keeps what the fixes
/// before it have made: no new characters but an underscore, NFC, and no space or
/// dot laid bare at the ends.
pub proof fn law_truncated(s: Seq<char>)
    ensures
        fits(truncated(s)),
        is_drawn(truncated(s), s),
        truncated(s).len() > 0,
        nfc(s) == s ==> nfc(truncated(s)) == truncated(s),
        s.len() > 0 && s[0] != ' ' ==> truncated(s)[0] != ' ',
        s.len() > 0 && !is_stripped(s.last()) ==> !is_stripped(truncated(s).last()),
{
    reveal_strlit("_");
    let stem = stem_of(s);
    let ext = extension_of(s);
    lemma_split(s);
    lemma_short_fits(ext);
    lemma_fitting(stem, ext);
    let fit = fitting(stem, ext);
    let kept = trim_end(fit);
    lemma_trim_end(fit);
    let r = truncated(s);
    assert(fit == kept + fit.skip(kept.len() as int));
    assert(fit + ext == kept + (fit.skip(kept.len() as int) + ext));
    assert(fits(kept + ext)) by {
        lemma_utf8_len_concat(kept, fit.skip(kept.len() as int) + ext);
        lemma_utf16_concat(kept, fit.skip(kept.len() as int) + ext);
        lemma_utf8_len_concat(fit.skip(kept.len() as int), ext);
        lemma_utf16_concat(fit.skip(kept.len() as int), ext);
        lemma_utf8_len_concat(kept, ext);
        lemma_utf16_concat(kept, ext);
    }
    assert(kept == s.take(kept.len() as int));
    if kept.len() == 0 && ext.len() == 0 {
        lemma_short_fits("_"@);
        law_ascii_is_nfc("_"@);
    } else {
        assert(r == kept + ext);
        assert forall|i: int| 0 <= i < r.len() implies s.contains(#[trigger] r[i]) || r[i]
            == '_' by {
            if i < kept.len() {
                assert(r[i] == s[i]);
            } else {
                assert(r[i] == s[extension_start(s) + (i - kept.len())]);
            }
        }
        if nfc(s) == s {
            lemma_nfc_parts(s, extension_start(s));
            law_nfc_prefix(s, kept.len() as int);
            lemma_nfc_joint(kept, ext);
        }
        if ext.len() > 0 {
            assert(r.last() == s.last());
        } else {
            assert(r.last() == kept.last());
        }
        if kept.len() > 0 {
            assert(r[0] == s[0]);
        } else {
            assert(r[0] == ext[0]);
        }
    }
}

// ---------------------------------------------------------------------------
// Device names
// ---------------------------------------------------------------------------
/// The characters of a device name are neither spaces nor dots, nor dashes.
pub proof fn lemma_reserved_chars(stem: Seq<char>, i: int)
    requires
        is_reserved(stem),
        0 <= i < stem.len(),
    ensures
        !is_stripped(stem[i]),
        stem[i] != '-',
{
    reveal_strlit("CON");
    reveal_strlit("PRN");
    reveal_strlit("AUX");
    reveal_strlit("NUL");
    reveal_strlit("COM");
    reveal_strlit("LPT");
    let up = upper_all(stem);
    assert(up[i] == upper(stem[i]));
    if up.len() == 4 {
        assert(i < 3 ==> up.take(3)[i] == up[i]);
    }
}

/// A device name with an underscore is none, and nor is one cut by a character.
pub proof fn lemma_released_stem(stem: Seq<char>)
    requires
        is_reserved(stem),
    ensures
        !is_reserved(stem.push('_')),
        !is_reserved(stem.drop_last()),
{
    reveal_strlit("CON");
    reveal_strlit("PRN");
    reveal_strlit("AUX");
    reveal_strlit("NUL");
    reveal_strlit("COM");
    reveal_strlit("LPT");
    lemma_reserved_len(stem);
    let up = upper_all(stem);
    let more = upper_all(stem.push('_'));
    let less = upper_all(stem.drop_last());
    assert(more.len() == stem.len() + 1 && more.last() == '_');
    assert(less.len() == stem.len() - 1);
    assert(less == up.drop_last());
    if stem.len() == 4 {
        assert(less == up.take(3));
        assert(less[0] == up[0] && less[1] == up[1] && less[2] == up[2]);
    }
}

/// Where the device stem of a text ends.
pub proof fn lemma_device_stem(s: Seq<char>)
    ensures
        device_stem(s).len() <= first_dot(s) <= s.len(),
        device_stem(s) == s.take(device_stem(s).len() as int),
        forall|i: int|
            device_stem(s).len() <= i < first_dot(s) ==> is_stripped(#[trigger] s[i]),
        device_stem(s).len() < s.len() ==> is_stripped(s[device_stem(s).len() as int]),
{
    lemma_first_dot(s);
    let head = s.take(first_dot(s));
    lemma_trim_end(head);
    let n = device_stem(s).len() as int;
    assert(head.take(n) == s.take(n));
    assert forall|i: int| n <= i < first_dot(s) implies is_stripped(#[trigger] s[i]) by {
        assert(head[i] == s[i]);
    }
}

/// A text that ends in neither a space nor a dot is what is left of it after
/// trimming, with spaces and dots behind it.
pub proof fn lemma_trim_behind(a: Seq<char>, b: Seq<char>)
    requires
        a.len() == 0 || !is_stripped(a.last()),
        forall|i: int| 0 <= i < b.len() ==> is_stripped(#[trigger] b[i]),
    ensures
        trim_end(a + b) == a,
    decreases b.len(),
{
    if b.len() == 0 {
        assert(a + b == a);
    } else {
        assert((a + b).last() == b[b.len() - 1]);
        assert((a + b).drop_last() == a + b.drop_last());
        assert forall|i: int| 0 <= i < b.drop_last().len() implies is_stripped(
            #[trigger] b.drop_last()[i],
        ) by {
            assert(b.drop_last()[i] == b[i]);
        }
        lemma_trim_behind(a, b.drop_last());
    }
}

/// The device stem of `a + s.skip(n)`, where `n` is the length of that of `s`.
pub proof fn lemma_device_stem_of(s: Seq<char>, a: Seq<char>)
    requires
        a.len() > 0,
        forall|i: int| 0 <= i < a.len() ==> !is_stripped(#[trigger] a[i]),
    ensures
        device_stem(a + s.skip(device_stem(s).len() as int)) == a,
{
    lemma_device_stem(s);
    lemma_first_dot(s);
    let n = device_stem(s).len() as int;
    let rest = s.skip(n);
    let r = a + rest;
    let dot = first_dot(s) - n + a.len();
    assert forall|i: int| 0 <= i < dot implies #[trigger] r[i] != '.' by {
        if i < a.len() {
            assert(!is_stripped(a[i]));
        } else {
            assert(r[i] == s[i - a.len() + n]);
        }
    }
    if dot < r.len() {
        assert(r[dot] == s[first_dot(s)]);
    }
    lemma_first_dot_at(r, dot);
    let gap = s.subrange(n, first_dot(s));
    assert(r.take(dot) == a + gap);
    assert forall|i: int| 0 <= i < gap.len() implies is_stripped(#[trigger] gap[i]) by {
        assert(gap[i] == s[n + i]);
    }
    assert(!is_stripped(a[a.len() - 1]));
    lemma_trim_behind(a, gap);
}

/// Releasing a text from a device name keeps what the other fixes have made.
proof fn lemma_released(s: Seq<char>)
    requires
        is_reserved(device_stem(s)),
    ensures
        !is_reserved(device_stem(released(s))),
        is_drawn(released(s), s),
        released(s).len() > 0,
        fits(s) ==> fits(released(s)),
        nfc(s) == s ==> nfc(released(s)) == released(s),
        s[0] != ' ' ==> released(s)[0] != ' ',
        !is_stripped(s.last()) ==> !is_stripped(released(s).last()),
{
    reveal_strlit("_");
    let stem = device_stem(s);
    let n = stem.len() as int;
    let rest = s.skip(n);
    let r = released(s);
    lemma_device_stem(s);
    lemma_reserved_len(stem);
    lemma_released_stem(stem);
    assert(s == stem + rest);
    assert forall|i: int| 0 <= i < stem.len() implies !is_stripped(#[trigger] stem[i]) by {
        lemma_reserved_chars(stem, i);
    }
    if nfc(s) == s {
        lemma_nfc_parts(s, n);
    }
    lemma_utf8_len_concat(stem, rest);
    lemma_utf16_concat(stem, rest);
    if utf8_len(s) >= COMPONENT_LIMIT || utf16_units(s) >= COMPONENT_LIMIT {
        let a = stem.drop_last();
        assert(r == a + rest);
        assert forall|i: int| 0 <= i < a.len() implies !is_stripped(#[trigger] a[i]) by {
            assert(a[i] == stem[i]);
        }
        lemma_device_stem_of(s, a);
        assert(rest.len() > 0) by {
            if rest.len() == 0 {
                assert(s == stem);
                lemma_short_fits(s);
            }
        }
        assert(r.last() == s.last());
        assert(r[0] == s[0]);
        assert forall|i: int| 0 <= i < r.len() implies s.contains(#[trigger] r[i]) || r[i]
            == '_' by {
            if i < a.len() {
                assert(r[i] == s[i]);
            } else {
                assert(r[i] == s[i + 1]);
            }
        }
        lemma_utf8_len_concat(a, rest);
        lemma_utf16_concat(a, rest);
        if nfc(s) == s {
            law_nfc_prefix(stem, stem.len() - 1);
            assert(stem.take(stem.len() - 1) == a);
            lemma_nfc_joint(a, rest);
        }
    } else {
        let a = stem.push('_');
        assert(r == a + rest);
        assert forall|i: int| 0 <= i < a.len() implies !is_stripped(#[trigger] a[i]) by {
            if i < stem.len() {
                assert(a[i] == stem[i]);
            }
        }
        lemma_device_stem_of(s, a);
        assert(r[0] == s[0]);
        if rest.len() > 0 {
            assert(r.last() == s.last());
        } else {
            assert(r.last() == '_');
        }
        assert forall|i: int| 0 <= i < r.len() implies s.contains(#[trigger] r[i]) || r[i]
            == '_' by {
            if i < stem.len() {
                assert(r[i] == s[i]);
            } else if i > stem.len() {
                assert(r[i] == s[i - 1]);
            }
        }
        lemma_utf8_len_concat(a, rest);
        lemma_utf16_concat(a, rest);
        assert(a.drop_last() == stem);
        if nfc(s) == s {
            law_ascii_is_nfc(seq!['_']);
            lemma_nfc_joint(stem, seq!['_']);
            assert(stem + seq!['_'] == a);
            lemma_nfc_joint(a, rest);
        }
    }
}

// ---------------------------------------------------------------------------
// All fixes
// ---------------------------------------------------------------------------
/// There is nothing to do on a clean text.
pub proof fn law_clean_names_stay(s: Seq<char>, sel: Selection)
    requires
        is_clean(s, sel),
    ensures
        sanitized_text(s, sel) == s,
{
    if sel.runs(2) {
        lemma_mended_free(Trouble::Control, s);
    }
    if sel.runs(1) {
        lemma_mended_free(Trouble::Illegal, s);
    }
    if sel.runs(8) {
        lemma_mended_free(Trouble::Invisible, s);
    }
}

/// The characters of a text after the first three fixes.
pub proof fn lemma_without_trouble(s: Seq<char>, sel: Selection)
    ensures
        sel.runs(2) ==> is_free_of(Trouble::Control, without_trouble(s, sel)),
        sel.runs(1) ==> is_free_of(Trouble::Illegal, without_trouble(s, sel)),
        sel.runs(8) ==> is_free_of(Trouble::Invisible, without_trouble(s, sel)),
{
    let a = if sel.runs(2) {
        mended(Trouble::Control, s)
    } else {
        s
    };
    let b = if sel.runs(1) {
        mended(Trouble::Illegal, a)
    } else {
        a
    };
    if sel.runs(2) {
        lemma_mended(Trouble::Control, Trouble::Control, s);
        lemma_mended(Trouble::Illegal, Trouble::Control, a);
        lemma_mended(Trouble::Invisible, Trouble::Control, b);
    }
    if sel.runs(1) {
        lemma_mended(Trouble::Illegal, Trouble::Illegal, a);
        lemma_mended(Trouble::Invisible, Trouble::Illegal, b);
    }
    lemma_mended(Trouble::Invisible, Trouble::Invisible, b);
}

/// A sanitized text is clean, unless it was path syntax.
pub proof fn law_sanitized_is_clean(s: Seq<char>, sel: Selection)
    requires
        !is_dots(s),
    ensures
        is_clean(sanitized_text(s, sel), sel),
{
    reveal_strlit("_");
    let a = without_trouble(s, sel);
    lemma_without_trouble(s, sel);
    let b = normalized(a, sel);
    if sel.runs(7) {
        law_nfc_idempotent(a);
        if sel.runs(2) {
            lemma_nfc_free(Trouble::Control, a);
        }
        if sel.runs(1) {
            lemma_nfc_free(Trouble::Illegal, a);
        }
        if sel.runs(8) {
            lemma_nfc_free(Trouble::Invisible, a);
        }
    }
    let c0 = if sel.runs(4) {
        trim_start(b)
    } else {
        b
    };
    let c = trimmed(b, sel);
    lemma_trim_start(b);
    lemma_trim_end(c0);
    if sel.runs(7) {
        if sel.runs(4) {
            lemma_trim_start_nfc(b);
        }
        if sel.runs(3) {
            law_nfc_prefix(c0, trim_end(c0).len() as int);
        }
    }
    let skipped = b.len() - c0.len();
    assert forall|i: int| 0 <= i < c.len() implies b.contains(#[trigger] c[i]) || c[i] == '_' by {
        assert(c[i] == c0[i]);
        assert(c[i] == b[i + skipped]);
    }
    let d = shortened(c, sel);
    law_truncated(c);
    let e = unreserved(d, sel);
    if is_reserved(device_stem(d)) {
        lemma_reserved_len(device_stem(d));
        lemma_device_stem(d);
        lemma_released(d);
    }
    let r = sanitized_text(s, sel);
    lemma_short_fits("_"@);
    law_ascii_is_nfc("_"@);
    assert(!is_reserved(device_stem("_"@))) by {
        if is_reserved(device_stem("_"@)) {
            lemma_device_stem("_"@);
            lemma_reserved_len(device_stem("_"@));
        }
    }
    assert forall|t: Trouble| #[trigger] is_free_of(t, b) implies is_free_of(t, r) by {
        lemma_drawn_free(t, c, b);
        if sel.runs(9) && !fits(c) {
            lemma_drawn_free(t, d, c);
        }
        if sel.runs(0) && is_reserved(device_stem(d)) {
            lemma_drawn_free(t, e, d);
        }
    }
    assert(e.len() == 0 || (sel.runs(4) ==> e[0] != ' '));
    assert(e.len() == 0 || (sel.runs(3) ==> !is_stripped(e.last())));
}

/// Sanitizing a text twice is sanitizing it once.
pub proof fn law_sanitize_text_idempotent(s: Seq<char>, sel: Selection)
    ensures
        sanitized_text(sanitized_text(s, sel), sel) == sanitized_text(s, sel),
{
    if !is_dots(s) {
        law_sanitized_is_clean(s, sel);
        law_clean_names_stay(sanitized_text(s, sel), sel);
    }
}

/// Sanitizing a name twice is sanitizing it once.
pub proof fn law_sanitize_idempotent(bytes: Seq<u8>, sel: Selection)
    ensures
        sanitized(encode_utf8(sanitized(bytes, sel)), sel) == sanitized(bytes, sel),
{
    lemma_read_text(sanitized(bytes, sel), sel);
    law_sanitize_text_idempotent(read(bytes, sel), sel);
}

/// What is encoded reads as it was.
pub proof fn lemma_read_text(s: Seq<char>, sel: Selection)
    ensures
        valid_utf8(encode_utf8(s)),
        read(encode_utf8(s), sel) == s,
{
    encode_utf8_valid_utf8(s);
    encode_utf8_decode_utf8(s);
}

} // verus!
