//! Looking up primary composites and combining classes.

use vstd::prelude::*;

use crate::unicode_data::{CCC, COMPOSE};
use crate::unicode_decomp::{has_mapping, lemma_row_is_mapping, lemma_unwanted_is_suspect, mapping};
use crate::unicode_pairs::{
    composite_at, composite_row, lemma_angle_composites, lemma_composite_ok, COMPOSE_ROWS,
};
use crate::unicode_rows::{decomp_row, is_unwanted};

verus! {

// ---------------------------------------------------------------------------
// Primary composites
// ---------------------------------------------------------------------------
/// Is the `k`-th composite the one of `a` and `b`?
pub open spec fn joins(k: int, a: char, b: char) -> bool {
    composite_row(k).1 == a && composite_row(k).2 == b
}

/// Do `a` and `b` have a primary composite in the tables?
pub open spec fn has_composite(a: char, b: char) -> bool {
    exists|k: int| 0 <= k < COMPOSE_ROWS && #[trigger] joins(k, a, b)
}

/// The place of the primary composite of `a` and `b`.
pub open spec fn composite_place(a: char, b: char) -> int {
    choose|k: int| 0 <= k < COMPOSE_ROWS && #[trigger] joins(k, a, b)
}

/// The primary composite of `a` and `b`.
pub open spec fn composite(a: char, b: char) -> char {
    composite_row(composite_place(a, b)).0
}

/// The order of the composites.
spec fn before(k: int, a: char, b: char) -> bool {
    composite_row(k).1 < a || (composite_row(k).1 == a && composite_row(k).2 < b)
}

proof fn lemma_composites_ascend(j: int, k: int)
    requires
        0 <= j < k < COMPOSE_ROWS,
    ensures
        before(j, composite_row(k).1, composite_row(k).2),
    decreases k - j,
{
    lemma_composite_ok(j);
    if j + 1 < k {
        lemma_composites_ascend(j + 1, k);
    }
}

proof fn lemma_row_is_composite(k: int)
    requires
        0 <= k < COMPOSE_ROWS,
    ensures
        has_composite(composite_row(k).1, composite_row(k).2),
        composite(composite_row(k).1, composite_row(k).2) == composite_row(k).0,
{
    let (p, a, b) = composite_row(k);
    assert(joins(k, a, b));
    let j = composite_place(a, b);
    if j < k {
        lemma_composites_ascend(j, k);
    } else if k < j {
        lemma_composites_ascend(k, j);
    }
}

/// A composite maps back to the pair it is made of. It is no unwanted character,
/// and its second part is a character from U+0300 on.
pub proof fn lemma_composite(a: char, b: char)
    requires
        has_composite(a, b),
    ensures
        has_mapping(composite(a, b)),
        mapping(composite(a, b)) == (a, b),
        !is_unwanted(composite(a, b)),
        a >= '<',
        b >= '\u{0300}',
{
    let k = composite_place(a, b);
    assert(joins(k, a, b));
    lemma_composite_ok(k);
    assert(composite_row(k) == decomp_row(COMPOSE[k] as int)) by {
        reveal(composite_row);
    }
    lemma_row_is_mapping(COMPOSE[k] as int);
    if is_unwanted(composite(a, b)) {
        lemma_unwanted_is_suspect(composite(a, b));
    }
}

/// The negated angle brackets are composites.
pub proof fn lemma_negated_angles()
    ensures
        has_composite('<', '\u{0338}'),
        composite('<', '\u{0338}') == '\u{226E}',
        has_composite('>', '\u{0338}'),
        composite('>', '\u{0338}') == '\u{226F}',
{
    lemma_angle_composites();
    lemma_row_is_composite(0);
    lemma_row_is_composite(2);
}

/// The primary composite of `a` and `b`, if they have one.
pub fn find_composite(a: char, b: char) -> (r: Option<char>)
    ensures
        r is Some == has_composite(a, b),
        r is Some ==> r->0 == composite(a, b),
{
    let mut lo: usize = 0;
    let mut hi: usize = COMPOSE_ROWS;
    while lo < hi
        invariant
            lo <= hi <= COMPOSE_ROWS,
            forall|k: int| 0 <= k < lo ==> !#[trigger] joins(k, a, b),
            forall|k: int| hi <= k < COMPOSE_ROWS ==> !#[trigger] joins(k, a, b),
        decreases hi - lo,
    {
        let mid = lo + (hi - lo) / 2;
        let (p, x, y) = composite_at(mid);
        if x == a && y == b {
            proof {
                lemma_row_is_composite(mid as int);
            }
            return Some(p);
        }
        if x < a || (x == a && y < b) {
            assert forall|k: int| 0 <= k < mid + 1 implies !#[trigger] joins(k, a, b) by {
                if k < mid {
                    lemma_composites_ascend(k, mid as int);
                }
            }
            lo = mid + 1;
        } else {
            assert forall|k: int| mid <= k < COMPOSE_ROWS implies !#[trigger] joins(k, a, b) by {
                if mid < k {
                    lemma_composites_ascend(mid as int, k);
                }
            }
            hi = mid;
        }
    }
    None
}

// ---------------------------------------------------------------------------
// Combining classes
// ---------------------------------------------------------------------------
/// Number of combining class ranges.
pub const CCC_ROWS: usize = 382;

/// The `i`-th combining class range: first character, last character, class.
#[verifier::opaque]
pub open spec fn class_row(i: int) -> (char, char, u8) {
    CCC[i]
}

/// Does the `i`-th range hold `c`?
pub open spec fn classifies(i: int, c: char) -> bool {
    class_row(i).0 <= c <= class_row(i).1
}

/// The place of the range that holds `c`.
pub open spec fn class_place(c: char) -> int {
    choose|i: int| 0 <= i < CCC_ROWS && #[trigger] classifies(i, c)
}

/// The canonical combining class of `c`: zero outside the ranges.
pub open spec fn ccc(c: char) -> u8 {
    if exists|i: int| 0 <= i < CCC_ROWS && #[trigger] classifies(i, c) {
        class_row(class_place(c)).2
    } else {
        0
    }
}

spec fn class_ok(i: int) -> bool {
    let (first, last, class) = class_row(i);
    &&& '\u{0300}' <= first <= last
    &&& class != 0
    &&& i + 1 < CCC_ROWS ==> last < class_row(i + 1).0
}

spec fn classes_ok(lo: int, hi: int) -> bool
    decreases hi - lo,
{
    if hi - lo <= 1 {
        class_ok(lo)
    } else {
        let mid = lo + (hi - lo) / 2;
        classes_ok(lo, mid) && classes_ok(mid, hi)
    }
}

#[verifier::rlimit(40)]
proof fn lemma_classes_0()
    ensures
        classes_ok(0, 96),
{
    reveal(class_row);
    reveal(CCC);
    reveal_with_fuel(classes_ok, 9);
}

#[verifier::rlimit(40)]
proof fn lemma_classes_96()
    ensures
        classes_ok(96, 192),
{
    reveal(class_row);
    reveal(CCC);
    reveal_with_fuel(classes_ok, 9);
}

#[verifier::rlimit(40)]
proof fn lemma_classes_192()
    ensures
        classes_ok(192, 288),
{
    reveal(class_row);
    reveal(CCC);
    reveal_with_fuel(classes_ok, 9);
}

#[verifier::rlimit(40)]
proof fn lemma_classes_288()
    ensures
        classes_ok(288, 382),
{
    reveal(class_row);
    reveal(CCC);
    reveal_with_fuel(classes_ok, 9);
}

proof fn lemma_classes_at(lo: int, hi: int, i: int)
    requires
        classes_ok(lo, hi),
        lo <= i < hi,
    ensures
        class_ok(i),
    decreases hi - lo,
{
    if hi - lo > 1 {
        let mid = lo + (hi - lo) / 2;
        if i < mid {
            lemma_classes_at(lo, mid, i);
        } else {
            lemma_classes_at(mid, hi, i);
        }
    }
}

proof fn lemma_class_ok(i: int)
    requires
        0 <= i < CCC_ROWS,
    ensures
        class_ok(i),
{
    if i < 96 {
        lemma_classes_0();
        lemma_classes_at(0, 96, i);
    } else if i < 192 {
        lemma_classes_96();
        lemma_classes_at(96, 192, i);
    } else if i < 288 {
        lemma_classes_192();
        lemma_classes_at(192, 288, i);
    } else {
        lemma_classes_288();
        lemma_classes_at(288, 382, i);
    }
}

/// The range that holds the overlay of the negated angle brackets.
proof fn lemma_overlay_class()
    ensures
        class_row(10) == ('\u{0334}', '\u{0338}', 1u8),
{
    reveal(class_row);
    reveal(CCC);
}

proof fn lemma_classes_ascend(i: int, j: int)
    requires
        0 <= i < j < CCC_ROWS,
    ensures
        class_row(i).1 < class_row(j).0,
    decreases j - i,
{
    lemma_class_ok(i);
    if i + 1 < j {
        lemma_class_ok(i + 1);
        lemma_classes_ascend(i + 1, j);
    }
}

/// A character in range `i` has the class of that range.
proof fn lemma_class_of_row(i: int, c: char)
    requires
        0 <= i < CCC_ROWS,
        classifies(i, c),
    ensures
        ccc(c) == class_row(i).2,
        ccc(c) != 0,
{
    lemma_class_ok(i);
    let j = class_place(c);
    if i < j {
        lemma_classes_ascend(i, j);
    } else if j < i {
        lemma_classes_ascend(j, i);
    }
}

/// The characters below U+0300 are starters.
pub proof fn lemma_low_is_starter(c: char)
    requires
        '\u{0300}' > c,
    ensures
        ccc(c) == 0,
{
    if exists|i: int| 0 <= i < CCC_ROWS && #[trigger] classifies(i, c) {
        lemma_class_ok(class_place(c));
    }
}

proof fn lemma_hangul_gaps()
    ensures
        class_row(186) == ('\u{108D}', '\u{108D}', 220u8),
        class_row(187) == ('\u{135D}', '\u{135F}', 230u8),
        class_row(290) == ('\u{ABED}', '\u{ABED}', 9u8),
        class_row(291) == ('\u{FB1E}', '\u{FB1E}', 26u8),
{
    reveal(class_row);
    reveal(CCC);
}

/// The conjoining jamo and the Hangul syllables are starters.
pub proof fn lemma_hangul_is_starter(c: char)
    requires
        '\u{1100}' <= c <= '\u{11FF}' || '\u{AC00}' <= c <= '\u{D7A3}',
    ensures
        ccc(c) == 0,
{
    if exists|i: int| 0 <= i < CCC_ROWS && #[trigger] classifies(i, c) {
        let i = class_place(c);
        lemma_hangul_gaps();
        let m: int = if '\u{11FF}' >= c {
            186
        } else {
            290
        };
        if i < m {
            lemma_classes_ascend(i, m);
        } else if i > m + 1 {
            lemma_classes_ascend(m + 1, i);
        }
    }
}

/// The overlay of the negated angle brackets has the least class of all marks.
pub proof fn lemma_overlay()
    ensures
        ccc('\u{0338}') == 1,
{
    lemma_overlay_class();
    assert(classifies(10, '\u{0338}'));
    lemma_class_of_row(10, '\u{0338}');
}

/// The canonical combining class of `c`.
pub fn find_class(c: char) -> (r: u8)
    ensures
        r == ccc(c),
{
    let mut lo: usize = 0;
    let mut hi: usize = CCC_ROWS;
    let rows: &'static [(char, char, u8); 382] = &CCC;
    while lo < hi
        invariant
            lo <= hi <= CCC_ROWS,
            rows@ == CCC@,
            forall|i: int| 0 <= i < lo ==> !#[trigger] classifies(i, c),
            forall|i: int| hi <= i < CCC_ROWS ==> !#[trigger] classifies(i, c),
        decreases hi - lo,
    {
        let mid = lo + (hi - lo) / 2;
        let (first, last, class) = rows[mid];
        assert(class_row(mid as int) == (first, last, class)) by {
            reveal(class_row);
        }
        proof {
            lemma_class_ok(mid as int);
        }
        if first <= c && c <= last {
            proof {
                lemma_class_of_row(mid as int, c);
            }
            return class;
        }
        if last < c {
            assert forall|i: int| 0 <= i < mid + 1 implies !#[trigger] classifies(i, c) by {
                if i < mid {
                    lemma_classes_ascend(i, mid as int);
                }
            }
            lo = mid + 1;
        } else {
            assert forall|i: int| mid <= i < CCC_ROWS implies !#[trigger] classifies(i, c) by {
                if mid < i {
                    lemma_classes_ascend(mid as int, i);
                }
            }
            hi = mid;
        }
    }
    0
}

} // verus!
