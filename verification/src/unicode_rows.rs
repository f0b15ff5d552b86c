//! The rows of the canonical mapping tables, and what each of them satisfies.

use vstd::prelude::*;

use crate::checks::{is_ascii_control, is_illegal, is_invisible};
use crate::unicode_data::{DECOMP_HIGH, DECOMP_LOW, DECOMP_MID};
use crate::unicode_upper_rows::lemma_upper_row_ok;

verus! {

/// Number of rows of the canonical mapping tables together.
pub const DECOMP_ROWS: usize = 2061;

// ---------------------------------------------------------------------------
// Rows
// ---------------------------------------------------------------------------
/// Row `i` of the canonical mapping tables: a character, the first character it
/// maps to, and the second one or `'\0'`.
#[verifier::opaque]
pub open spec fn decomp_row(i: int) -> (char, char, char) {
    if i < 889 {
        DECOMP_LOW[i]
    } else if i < 1493 {
        DECOMP_MID[i - 889]
    } else {
        DECOMP_HIGH[i - 1493]
    }
}

/// Row `i` of the canonical mapping tables.
pub fn decomp_at(i: usize) -> (r: (char, char, char))
    requires
        i < DECOMP_ROWS,
    ensures
        r == decomp_row(i as int),
{
    reveal(decomp_row);
    let low: &'static [(char, char, char); 889] = &DECOMP_LOW;
    let mid: &'static [(char, char, char); 604] = &DECOMP_MID;
    let high: &'static [(char, char, char); 568] = &DECOMP_HIGH;
    if i < 889 {
        low[i]
    } else if i < 1493 {
        mid[i - 889]
    } else {
        high[i - 1493]
    }
}

// ---------------------------------------------------------------------------
// What the rows satisfy
// ---------------------------------------------------------------------------
/// First Hangul syllable.
pub const S_BASE: u32 = 0xAC00;

/// First leading consonant.
pub const L_BASE: u32 = 0x1100;

/// First vowel.
pub const V_BASE: u32 = 0x1161;

/// One before the first trailing consonant.
pub const T_BASE: u32 = 0x11A7;

pub const L_COUNT: u32 = 19;

pub const V_COUNT: u32 = 21;

pub const T_COUNT: u32 = 28;

pub const N_COUNT: u32 = 588;

pub const S_COUNT: u32 = 11172;

/// Is `c` a precomposed Hangul syllable?
pub open spec fn is_syllable(c: char) -> bool {
    S_BASE <= (c as u32) < S_BASE + S_COUNT
}

/// Is `c` in the block of conjoining jamo?
pub open spec fn is_jamo(c: char) -> bool {
    '\u{1100}' <= c <= '\u{11FF}'
}

/// Is `c` the character of a row in `lo..hi` of `DECOMP_LOW`? Decided by halving.
pub open spec fn in_low(lo: int, hi: int, c: char) -> bool
    decreases hi - lo,
{
    if hi - lo <= 1 {
        DECOMP_LOW[lo].0 == c
    } else {
        let mid = lo + (hi - lo) / 2;
        if c < DECOMP_LOW[mid].0 {
            in_low(lo, mid, c)
        } else {
            in_low(mid, hi, c)
        }
    }
}

/// Is `c` the character of a row in `lo..hi` of `DECOMP_MID`? Decided by halving.
pub open spec fn in_mid(lo: int, hi: int, c: char) -> bool
    decreases hi - lo,
{
    if hi - lo <= 1 {
        DECOMP_MID[lo].0 == c
    } else {
        let mid = lo + (hi - lo) / 2;
        if c < DECOMP_MID[mid].0 {
            in_mid(lo, mid, c)
        } else {
            in_mid(mid, hi, c)
        }
    }
}

/// Is `c` the character of a row in `lo..hi` of `DECOMP_HIGH`? Decided by halving.
pub open spec fn in_high(lo: int, hi: int, c: char) -> bool
    decreases hi - lo,
{
    if hi - lo <= 1 {
        DECOMP_HIGH[lo].0 == c
    } else {
        let mid = lo + (hi - lo) / 2;
        if c < DECOMP_HIGH[mid].0 {
            in_high(lo, mid, c)
        } else {
            in_high(mid, hi, c)
        }
    }
}

/// Does `c` have a canonical mapping? Gaps between rows are decided first, the
/// rest by halving.
pub open spec fn keyed(c: char) -> bool {
    if '\u{00C0}' > c || '\u{0234}' <= c <= '\u{033F}' || '\u{30FF}' <= c <= '\u{F8FF}' {
        false
    } else if '\u{0340}' > c {
        in_low(0, 252, c)
    } else if '\u{2000}' > c {
        in_low(252, 889, c)
    } else if '\u{F900}' > c {
        in_mid(0, 110, c)
    } else if '\u{10000}' > c {
        in_mid(110, 604, c)
    } else if '\u{1D1C1}' > c {
        in_high(0, 26, c)
    } else if '\u{2F800}' > c {
        false
    } else {
        in_high(26, 568, c)
    }
}

/// A measure that goes down from a character to the first character it maps to,
/// as long as that one maps to something too. It is the code point, but for the
/// few characters that map to a later one.
pub open spec fn weight(c: char) -> int {
    let late = if c == '\u{1FD3}' || c == '\u{1FE3}' {
        2int
    } else if c == '\u{01E0}' || c == '\u{01E1}' || c == '\u{0390}' || c == '\u{03B0}' || c
        == '\u{FB2C}' || c == '\u{FB2D}' {
        1
    } else {
        0
    };
    c as int + late * 0x110000
}

/// Is `c` a character that a fix removes or replaces?
pub open spec fn is_unwanted(c: char) -> bool {
    is_illegal(c) || is_ascii_control(c) || is_invisible(c)
}

/// The two mappings that lead to an unwanted character from one that is not.
pub open spec fn is_negated_angle(k: char, a: char, b: char) -> bool {
    ||| k == '\u{226E}' && a == '<' && b == '\u{0338}'
    ||| k == '\u{226F}' && a == '>' && b == '\u{0338}'
}

/// A coarse range around the unwanted characters.
pub open spec fn is_suspect(c: char) -> bool {
    ||| 'A' > c
    ||| 'Z' < c && 'a' > c
    ||| 'z' < c && '\u{00C0}' > c
    ||| c == '\u{061C}' || c == '\u{1680}' || c == '\u{180E}' || c == '\u{FEFF}'
    ||| '\u{2000}' <= c <= '\u{206F}'
}

/// The characters that map to one in that range.
pub open spec fn has_suspect_first(k: char) -> bool {
    ||| k == '\u{037E}' || k == '\u{0385}' || k == '\u{0387}'
    ||| k == '\u{1FC1}' || k == '\u{1FED}' || k == '\u{1FEF}' || k == '\u{1FFD}'
    ||| k == '\u{2000}' || k == '\u{2001}'
    ||| k == '\u{2260}' || k == '\u{226E}' || k == '\u{226F}'
}

/// What each row satisfies.
pub open spec fn row_ok(i: int) -> bool {
    let (k, a, b) = decomp_row(i);
    &&& i + 1 < DECOMP_ROWS ==> k < decomp_row(i + 1).0
    &&& !is_syllable(k) && !is_jamo(k) && !is_syllable(a)
    &&& b == '\0' || ('\u{0300}' <= b && !is_syllable(b) && !is_suspect(b))
    &&& !keyed(b)
    &&& keyed(a) ==> weight(a) < weight(k)
    &&& is_suspect(a) ==> has_suspect_first(k)
    &&& a != '\u{226E}' && a != '\u{226F}'
}

pub open spec fn rows_ok(lo: int, hi: int) -> bool
    decreases hi - lo,
{
    if hi - lo <= 1 {
        row_ok(lo)
    } else {
        let mid = lo + (hi - lo) / 2;
        rows_ok(lo, mid) && rows_ok(mid, hi)
    }
}

#[verifier::rlimit(40)]
proof fn lemma_rows_0()
    ensures
        rows_ok(0, 64),
{
    reveal(decomp_row);
    reveal(DECOMP_LOW);
    reveal_with_fuel(in_low, 11);
    reveal_with_fuel(rows_ok, 8);
}

#[verifier::rlimit(40)]
proof fn lemma_rows_64()
    ensures
        rows_ok(64, 128),
{
    reveal(decomp_row);
    reveal(DECOMP_LOW);
    reveal_with_fuel(in_low, 11);
    reveal_with_fuel(rows_ok, 8);
}

#[verifier::rlimit(40)]
proof fn lemma_rows_128()
    ensures
        rows_ok(128, 192),
{
    reveal(decomp_row);
    reveal(DECOMP_LOW);
    reveal_with_fuel(in_low, 11);
    reveal_with_fuel(rows_ok, 8);
}

#[verifier::rlimit(40)]
proof fn lemma_rows_192()
    ensures
        rows_ok(192, 256),
{
    reveal(decomp_row);
    reveal(DECOMP_LOW);
    reveal_with_fuel(in_low, 11);
    reveal_with_fuel(rows_ok, 8);
}

#[verifier::rlimit(40)]
proof fn lemma_rows_256()
    ensures
        rows_ok(256, 320),
{
    reveal(decomp_row);
    reveal(DECOMP_LOW);
    reveal_with_fuel(in_low, 11);
    reveal_with_fuel(rows_ok, 8);
}

#[verifier::rlimit(40)]
proof fn lemma_rows_320()
    ensures
        rows_ok(320, 384),
{
    reveal(decomp_row);
    reveal(DECOMP_LOW);
    reveal_with_fuel(in_low, 11);
    reveal_with_fuel(rows_ok, 8);
}

#[verifier::rlimit(40)]
proof fn lemma_rows_384()
    ensures
        rows_ok(384, 448),
{
    reveal(decomp_row);
    reveal(DECOMP_LOW);
    reveal_with_fuel(in_low, 11);
    reveal_with_fuel(rows_ok, 8);
}

#[verifier::rlimit(40)]
proof fn lemma_rows_448()
    ensures
        rows_ok(448, 512),
{
    reveal(decomp_row);
    reveal(DECOMP_LOW);
    reveal_with_fuel(in_low, 11);
    reveal_with_fuel(rows_ok, 8);
}

#[verifier::rlimit(40)]
proof fn lemma_rows_512()
    ensures
        rows_ok(512, 576),
{
    reveal(decomp_row);
    reveal(DECOMP_LOW);
    reveal_with_fuel(in_low, 11);
    reveal_with_fuel(rows_ok, 8);
}

#[verifier::rlimit(40)]
proof fn lemma_rows_576()
    ensures
        rows_ok(576, 640),
{
    reveal(decomp_row);
    reveal(DECOMP_LOW);
    reveal_with_fuel(in_low, 11);
    reveal_with_fuel(rows_ok, 8);
}

#[verifier::rlimit(40)]
proof fn lemma_rows_640()
    ensures
        rows_ok(640, 704),
{
    reveal(decomp_row);
    reveal(DECOMP_LOW);
    reveal_with_fuel(in_low, 11);
    reveal_with_fuel(rows_ok, 8);
}

#[verifier::rlimit(40)]
proof fn lemma_rows_704()
    ensures
        rows_ok(704, 768),
{
    reveal(decomp_row);
    reveal(DECOMP_LOW);
    reveal_with_fuel(in_low, 11);
    reveal_with_fuel(rows_ok, 8);
}

#[verifier::rlimit(40)]
proof fn lemma_rows_768()
    ensures
        rows_ok(768, 832),
{
    reveal(decomp_row);
    reveal(DECOMP_LOW);
    reveal_with_fuel(in_low, 11);
    reveal_with_fuel(rows_ok, 8);
}

#[verifier::rlimit(40)]
proof fn lemma_rows_832()
    ensures
        rows_ok(832, 889),
{
    reveal(decomp_row);
    reveal(DECOMP_LOW);
    reveal(DECOMP_MID);
    reveal_with_fuel(in_low, 11);
    reveal_with_fuel(in_mid, 11);
    reveal_with_fuel(rows_ok, 8);
}

/// Each of the rows `lo..hi` satisfies `row_ok`.
pub proof fn lemma_rows_at(lo: int, hi: int, i: int)
    requires
        rows_ok(lo, hi),
        lo <= i < hi,
    ensures
        row_ok(i),
    decreases hi - lo,
{
    if hi - lo > 1 {
        let mid = lo + (hi - lo) / 2;
        if i < mid {
            lemma_rows_at(lo, mid, i);
        } else {
            lemma_rows_at(mid, hi, i);
        }
    }
}

/// Every row satisfies `row_ok`.
pub proof fn lemma_row_ok(i: int)
    requires
        0 <= i < DECOMP_ROWS,
    ensures
        row_ok(i),
{
    if i < 64 {
        lemma_rows_0();
        lemma_rows_at(0, 64, i);
    } else if i < 128 {
        lemma_rows_64();
        lemma_rows_at(64, 128, i);
    } else if i < 192 {
        lemma_rows_128();
        lemma_rows_at(128, 192, i);
    } else if i < 256 {
        lemma_rows_192();
        lemma_rows_at(192, 256, i);
    } else if i < 320 {
        lemma_rows_256();
        lemma_rows_at(256, 320, i);
    } else if i < 384 {
        lemma_rows_320();
        lemma_rows_at(320, 384, i);
    } else if i < 448 {
        lemma_rows_384();
        lemma_rows_at(384, 448, i);
    } else if i < 512 {
        lemma_rows_448();
        lemma_rows_at(448, 512, i);
    } else if i < 576 {
        lemma_rows_512();
        lemma_rows_at(512, 576, i);
    } else if i < 640 {
        lemma_rows_576();
        lemma_rows_at(576, 640, i);
    } else if i < 704 {
        lemma_rows_640();
        lemma_rows_at(640, 704, i);
    } else if i < 768 {
        lemma_rows_704();
        lemma_rows_at(704, 768, i);
    } else if i < 832 {
        lemma_rows_768();
        lemma_rows_at(768, 832, i);
    } else if i < 889 {
        lemma_rows_832();
        lemma_rows_at(832, 889, i);
    } else {
        lemma_upper_row_ok(i);
    }
}

/// The rows at the ends of the gaps.
pub proof fn lemma_gap_rows()
    ensures
        decomp_row(0).0 == '\u{00C0}',
        decomp_row(251).0 == '\u{0233}',
        decomp_row(252).0 == '\u{0340}',
        decomp_row(888).0 == '\u{1FFD}',
        decomp_row(889).0 == '\u{2000}',
        decomp_row(998).0 == '\u{30FE}',
        decomp_row(999).0 == '\u{F900}',
        decomp_row(1492).0 == '\u{FB4E}',
        decomp_row(1493).0 == '\u{1109A}',
        decomp_row(1518).0 == '\u{1D1C0}',
        decomp_row(1519).0 == '\u{2F800}',
{
    reveal(decomp_row);
    reveal(DECOMP_LOW);
    reveal(DECOMP_MID);
    reveal(DECOMP_HIGH);
}

/// The rows whose first character lies in the coarse range of unwanted ones.
pub proof fn lemma_suspect_rows()
    ensures
        decomp_row(257) == ('\u{037E}', '\u{003B}', '\0'),
        decomp_row(258) == ('\u{0385}', '\u{00A8}', '\u{0301}'),
        decomp_row(260) == ('\u{0387}', '\u{00B7}', '\0'),
        decomp_row(835) == ('\u{1FC1}', '\u{00A8}', '\u{0342}'),
        decomp_row(875) == ('\u{1FED}', '\u{00A8}', '\u{0300}'),
        decomp_row(877) == ('\u{1FEF}', '\u{0060}', '\0'),
        decomp_row(888) == ('\u{1FFD}', '\u{00B4}', '\0'),
        decomp_row(889) == ('\u{2000}', '\u{2002}', '\0'),
        decomp_row(890) == ('\u{2001}', '\u{2003}', '\0'),
        decomp_row(909) == ('\u{2260}', '\u{003D}', '\u{0338}'),
        decomp_row(912) == ('\u{226E}', '\u{003C}', '\u{0338}'),
        decomp_row(913) == ('\u{226F}', '\u{003E}', '\u{0338}'),
{
    reveal(decomp_row);
    reveal(DECOMP_LOW);
    reveal(DECOMP_MID);
}

} // verus!
