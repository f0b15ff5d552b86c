//! Looking a character up in the canonical mapping tables, and the facts about
//! mappings that the normalization algorithms and their laws rest on.

use vstd::prelude::*;

use crate::checks::{is_ascii_control, is_illegal, is_invisible};
use crate::unicode_rows::{
    decomp_at, decomp_row, in_high, in_low, in_mid, is_jamo, is_negated_angle, is_suspect,
    is_syllable, is_unwanted, keyed, lemma_gap_rows, lemma_row_ok, lemma_suspect_rows, weight,
    DECOMP_ROWS,
};

verus! {

/// Does `c` have a row in the canonical mapping tables?
pub open spec fn has_mapping(c: char) -> bool {
    exists|i: int| 0 <= i < DECOMP_ROWS && (#[trigger] decomp_row(i)).0 == c
}

/// The row of `c`.
pub open spec fn row_of(c: char) -> int {
    choose|i: int| 0 <= i < DECOMP_ROWS && (#[trigger] decomp_row(i)).0 == c
}

/// The canonical mapping of `c`: its first character, and the second or `'\0'`.
pub open spec fn mapping(c: char) -> (char, char) {
    (decomp_row(row_of(c)).1, decomp_row(row_of(c)).2)
}

/// The rows are in strictly ascending order.
pub proof fn lemma_rows_ascend(i: int, j: int)
    requires
        0 <= i < j < DECOMP_ROWS,
    ensures
        decomp_row(i).0 < decomp_row(j).0,
    decreases j - i,
{
    lemma_row_ok(i);
    if i + 1 < j {
        lemma_rows_ascend(i + 1, j);
    }
}

/// A character has one row at most.
pub proof fn lemma_row_is_mapping(i: int)
    requires
        0 <= i < DECOMP_ROWS,
    ensures
        has_mapping(decomp_row(i).0),
        mapping(decomp_row(i).0) == (decomp_row(i).1, decomp_row(i).2),
{
    let c = decomp_row(i).0;
    let j = row_of(c);
    if i < j {
        lemma_rows_ascend(i, j);
    } else if j < i {
        lemma_rows_ascend(j, i);
    }
}

proof fn lemma_in_low(lo: int, hi: int, i: int)
    requires
        0 <= lo <= i < hi <= 889,
    ensures
        in_low(lo, hi, decomp_row(i).0),
    decreases hi - lo,
{
    reveal(decomp_row);
    if hi - lo > 1 {
        let mid = lo + (hi - lo) / 2;
        if i < mid {
            lemma_rows_ascend(i, mid);
            lemma_in_low(lo, mid, i);
        } else {
            if mid < i {
                lemma_rows_ascend(mid, i);
            }
            lemma_in_low(mid, hi, i);
        }
    }
}

proof fn lemma_in_mid(lo: int, hi: int, i: int)
    requires
        0 <= lo <= i < hi <= 604,
    ensures
        in_mid(lo, hi, decomp_row(889 + i).0),
    decreases hi - lo,
{
    reveal(decomp_row);
    if hi - lo > 1 {
        let mid = lo + (hi - lo) / 2;
        if i < mid {
            lemma_rows_ascend(889 + i, 889 + mid);
            lemma_in_mid(lo, mid, i);
        } else {
            if mid < i {
                lemma_rows_ascend(889 + mid, 889 + i);
            }
            lemma_in_mid(mid, hi, i);
        }
    }
}

proof fn lemma_in_high(lo: int, hi: int, i: int)
    requires
        0 <= lo <= i < hi <= 568,
    ensures
        in_high(lo, hi, decomp_row(1493 + i).0),
    decreases hi - lo,
{
    reveal(decomp_row);
    if hi - lo > 1 {
        let mid = lo + (hi - lo) / 2;
        if i < mid {
            lemma_rows_ascend(1493 + i, 1493 + mid);
            lemma_in_high(lo, mid, i);
        } else {
            if mid < i {
                lemma_rows_ascend(1493 + mid, 1493 + i);
            }
            lemma_in_high(mid, hi, i);
        }
    }
}

/// Where row `i` stands against a landmark row `m`.
proof fn lemma_against(i: int, m: int)
    requires
        0 <= i < DECOMP_ROWS,
        0 <= m < DECOMP_ROWS,
    ensures
        i < m ==> decomp_row(i).0 < decomp_row(m).0,
        i > m ==> decomp_row(m).0 < decomp_row(i).0,
{
    if i < m {
        lemma_rows_ascend(i, m);
    } else if m < i {
        lemma_rows_ascend(m, i);
    }
}

proof fn lemma_mapping_is_keyed(c: char)
    requires
        has_mapping(c),
    ensures
        keyed(c),
{
    let i = row_of(c);
    lemma_gap_rows();
    lemma_against(i, 0);
    lemma_against(i, 251);
    lemma_against(i, 252);
    lemma_against(i, 888);
    lemma_against(i, 889);
    lemma_against(i, 998);
    lemma_against(i, 999);
    lemma_against(i, 1492);
    lemma_against(i, 1493);
    lemma_against(i, 1518);
    lemma_against(i, 1519);
    if i < 252 {
        lemma_in_low(0, 252, i);
    } else if i < 889 {
        lemma_in_low(252, 889, i);
    } else if i < 999 {
        lemma_in_mid(0, 110, i - 889);
    } else if i < 1493 {
        lemma_in_mid(110, 604, i - 889);
    } else if i < 1519 {
        lemma_in_high(0, 26, i - 1493);
    } else {
        lemma_in_high(26, 568, i - 1493);
    }
}

/// The unwanted characters lie in the coarse range.
pub proof fn lemma_unwanted_is_suspect(c: char)
    requires
        is_unwanted(c),
    ensures
        is_suspect(c),
{
}

/// What a canonical mapping satisfies: it leads neither from nor to a Hangul
/// syllable, its second character is a character from U+0300 on that maps no
/// further, its first one maps no further or weighs less. It leads to a character
/// that Windows rejects only from the two negated angle brackets, to an invisible
/// one only from another, and never to a slash.
pub proof fn lemma_mapping(c: char)
    requires
        has_mapping(c),
    ensures
        c >= '\u{00C0}',
        !is_syllable(c),
        !is_jamo(c),
        !is_syllable(mapping(c).0),
        has_mapping(mapping(c).0) ==> weight(mapping(c).0) < weight(c),
        mapping(c).0 != '\u{226E}' && mapping(c).0 != '\u{226F}',
        is_illegal(mapping(c).0) ==> is_negated_angle(c, mapping(c).0, mapping(c).1),
        mapping(c).0 != '/',
        !is_ascii_control(mapping(c).0),
        is_invisible(mapping(c).0) ==> is_invisible(c),
        mapping(c).1 == '\0' || {
            &&& mapping(c).1 >= '\u{0300}'
            &&& !is_syllable(mapping(c).1)
            &&& !has_mapping(mapping(c).1)
            &&& !is_unwanted(mapping(c).1)
        },
{
    let i = row_of(c);
    let (a, b) = mapping(c);
    lemma_row_ok(i);
    lemma_gap_rows();
    lemma_against(i, 0);
    if has_mapping(a) {
        lemma_mapping_is_keyed(a);
    }
    if has_mapping(b) {
        lemma_mapping_is_keyed(b);
    }
    if is_unwanted(a) || a == '/' {
        if is_unwanted(a) {
            lemma_unwanted_is_suspect(a);
        }
        lemma_suspect_rows();
        lemma_against(i, 257);
        lemma_against(i, 258);
        lemma_against(i, 260);
        lemma_against(i, 835);
        lemma_against(i, 875);
        lemma_against(i, 877);
        lemma_against(i, 888);
        lemma_against(i, 889);
        lemma_against(i, 890);
        lemma_against(i, 909);
        lemma_against(i, 912);
        lemma_against(i, 913);
    }
    if is_unwanted(b) && b != '\0' {
        lemma_unwanted_is_suspect(b);
    }
}

/// The canonical mapping of `c`, if it has one.
pub fn find_mapping(c: char) -> (r: Option<(char, char)>)
    ensures
        r is Some == has_mapping(c),
        r is Some ==> r->0 == mapping(c),
{
    let mut lo: usize = 0;
    let mut hi: usize = DECOMP_ROWS;
    while lo < hi
        invariant
            lo <= hi <= DECOMP_ROWS,
            forall|i: int| 0 <= i < lo ==> (#[trigger] decomp_row(i)).0 < c,
            forall|i: int| hi <= i < DECOMP_ROWS ==> c < (#[trigger] decomp_row(i)).0,
        decreases hi - lo,
    {
        let mid = lo + (hi - lo) / 2;
        let (k, a, b) = decomp_at(mid);
        if k == c {
            proof {
                lemma_row_is_mapping(mid as int);
            }
            return Some((a, b));
        }
        if k < c {
            assert forall|i: int| 0 <= i < mid + 1 implies (#[trigger] decomp_row(i)).0 < c by {
                lemma_against(i, mid as int);
            }
            lo = mid + 1;
        } else {
            assert forall|i: int| mid <= i < DECOMP_ROWS implies c < (#[trigger] decomp_row(
                i,
            )).0 by {
                lemma_against(i, mid as int);
            }
            hi = mid;
        }
    }
    None
}

} // verus!
