//! The primary composites in their order, and what each of them satisfies.

use vstd::prelude::*;

use crate::unicode_data::{COMPOSE, DECOMP_HIGH, DECOMP_LOW, DECOMP_MID};
use crate::unicode_rows::{decomp_at, decomp_row, is_suspect, DECOMP_ROWS};

verus! {

/// Number of primary composites.
pub const COMPOSE_ROWS: usize = 941;

/// The canonical mapping row of the `k`-th primary composite.
#[verifier::opaque]
pub open spec fn composite_row(k: int) -> (char, char, char) {
    decomp_row(COMPOSE[k] as int)
}

/// What each composite satisfies.
pub open spec fn composite_ok(k: int) -> bool {
    let (p, a, b) = composite_row(k);
    &&& COMPOSE[k] < DECOMP_ROWS
    &&& '<' <= a && '\u{0300}' <= b && !is_suspect(p)
    &&& k + 1 < COMPOSE_ROWS ==> a < composite_row(k + 1).1 || (a == composite_row(k + 1).1 && b
        < composite_row(k + 1).2)
}

pub open spec fn composites_ok(lo: int, hi: int) -> bool
    decreases hi - lo,
{
    if hi - lo <= 1 {
        composite_ok(lo)
    } else {
        let mid = lo + (hi - lo) / 2;
        composites_ok(lo, mid) && composites_ok(mid, hi)
    }
}

#[verifier::rlimit(40)]
proof fn lemma_composites_0()
    ensures
        composites_ok(0, 64),
{
    reveal(decomp_row);
    reveal(composite_row);
    reveal(COMPOSE);
    reveal(DECOMP_LOW);
    reveal(DECOMP_MID);
    reveal_with_fuel(composites_ok, 8);
}

#[verifier::rlimit(40)]
proof fn lemma_composites_64()
    ensures
        composites_ok(64, 128),
{
    reveal(decomp_row);
    reveal(composite_row);
    reveal(COMPOSE);
    reveal(DECOMP_LOW);
    reveal_with_fuel(composites_ok, 8);
}

#[verifier::rlimit(40)]
proof fn lemma_composites_128()
    ensures
        composites_ok(128, 192),
{
    reveal(decomp_row);
    reveal(composite_row);
    reveal(COMPOSE);
    reveal(DECOMP_LOW);
    reveal_with_fuel(composites_ok, 8);
}

#[verifier::rlimit(40)]
proof fn lemma_composites_192()
    ensures
        composites_ok(192, 256),
{
    reveal(decomp_row);
    reveal(composite_row);
    reveal(COMPOSE);
    reveal(DECOMP_LOW);
    reveal_with_fuel(composites_ok, 8);
}

#[verifier::rlimit(40)]
proof fn lemma_composites_256()
    ensures
        composites_ok(256, 320),
{
    reveal(decomp_row);
    reveal(composite_row);
    reveal(COMPOSE);
    reveal(DECOMP_LOW);
    reveal_with_fuel(composites_ok, 8);
}

#[verifier::rlimit(40)]
proof fn lemma_composites_320()
    ensures
        composites_ok(320, 384),
{
    reveal(decomp_row);
    reveal(composite_row);
    reveal(COMPOSE);
    reveal(DECOMP_LOW);
    reveal_with_fuel(composites_ok, 8);
}

#[verifier::rlimit(40)]
proof fn lemma_composites_384()
    ensures
        composites_ok(384, 448),
{
    reveal(decomp_row);
    reveal(composite_row);
    reveal(COMPOSE);
    reveal(DECOMP_LOW);
    reveal_with_fuel(composites_ok, 8);
}

#[verifier::rlimit(40)]
proof fn lemma_composites_448()
    ensures
        composites_ok(448, 512),
{
    reveal(decomp_row);
    reveal(composite_row);
    reveal(COMPOSE);
    reveal(DECOMP_LOW);
    reveal_with_fuel(composites_ok, 8);
}

#[verifier::rlimit(40)]
proof fn lemma_composites_512()
    ensures
        composites_ok(512, 576),
{
    reveal(decomp_row);
    reveal(composite_row);
    reveal(COMPOSE);
    reveal(DECOMP_LOW);
    reveal_with_fuel(composites_ok, 8);
}

#[verifier::rlimit(40)]
proof fn lemma_composites_576()
    ensures
        composites_ok(576, 640),
{
    reveal(decomp_row);
    reveal(composite_row);
    reveal(COMPOSE);
    reveal(DECOMP_LOW);
    reveal_with_fuel(composites_ok, 8);
}

#[verifier::rlimit(40)]
proof fn lemma_composites_640()
    ensures
        composites_ok(640, 704),
{
    reveal(decomp_row);
    reveal(composite_row);
    reveal(COMPOSE);
    reveal(DECOMP_LOW);
    reveal_with_fuel(composites_ok, 8);
}

#[verifier::rlimit(40)]
proof fn lemma_composites_704()
    ensures
        composites_ok(704, 768),
{
    reveal(decomp_row);
    reveal(composite_row);
    reveal(COMPOSE);
    reveal(DECOMP_LOW);
    reveal_with_fuel(composites_ok, 8);
}

#[verifier::rlimit(40)]
proof fn lemma_composites_768()
    ensures
        composites_ok(768, 832),
{
    reveal(decomp_row);
    reveal(composite_row);
    reveal(COMPOSE);
    reveal(DECOMP_LOW);
    reveal(DECOMP_MID);
    reveal_with_fuel(composites_ok, 8);
}

#[verifier::rlimit(40)]
proof fn lemma_composites_832()
    ensures
        composites_ok(832, 896),
{
    reveal(decomp_row);
    reveal(composite_row);
    reveal(COMPOSE);
    reveal(DECOMP_MID);
    reveal_with_fuel(composites_ok, 8);
}

#[verifier::rlimit(40)]
proof fn lemma_composites_896()
    ensures
        composites_ok(896, 941),
{
    reveal(decomp_row);
    reveal(composite_row);
    reveal(COMPOSE);
    reveal(DECOMP_MID);
    reveal(DECOMP_HIGH);
    reveal_with_fuel(composites_ok, 8);
}

proof fn lemma_composites_at(lo: int, hi: int, k: int)
    requires
        composites_ok(lo, hi),
        lo <= k < hi,
    ensures
        composite_ok(k),
    decreases hi - lo,
{
    if hi - lo > 1 {
        let mid = lo + (hi - lo) / 2;
        if k < mid {
            lemma_composites_at(lo, mid, k);
        } else {
            lemma_composites_at(mid, hi, k);
        }
    }
}

/// Every composite satisfies `composite_ok`.
pub proof fn lemma_composite_ok(k: int)
    requires
        0 <= k < COMPOSE_ROWS,
    ensures
        composite_ok(k),
{
    if k < 64 {
        lemma_composites_0();
        lemma_composites_at(0, 64, k);
    } else if k < 128 {
        lemma_composites_64();
        lemma_composites_at(64, 128, k);
    } else if k < 192 {
        lemma_composites_128();
        lemma_composites_at(128, 192, k);
    } else if k < 256 {
        lemma_composites_192();
        lemma_composites_at(192, 256, k);
    } else if k < 320 {
        lemma_composites_256();
        lemma_composites_at(256, 320, k);
    } else if k < 384 {
        lemma_composites_320();
        lemma_composites_at(320, 384, k);
    } else if k < 448 {
        lemma_composites_384();
        lemma_composites_at(384, 448, k);
    } else if k < 512 {
        lemma_composites_448();
        lemma_composites_at(448, 512, k);
    } else if k < 576 {
        lemma_composites_512();
        lemma_composites_at(512, 576, k);
    } else if k < 640 {
        lemma_composites_576();
        lemma_composites_at(576, 640, k);
    } else if k < 704 {
        lemma_composites_640();
        lemma_composites_at(640, 704, k);
    } else if k < 768 {
        lemma_composites_704();
        lemma_composites_at(704, 768, k);
    } else if k < 832 {
        lemma_composites_768();
        lemma_composites_at(768, 832, k);
    } else if k < 896 {
        lemma_composites_832();
        lemma_composites_at(832, 896, k);
    } else {
        lemma_composites_896();
        lemma_composites_at(896, 941, k);
    }
}

/// The composites of the angle brackets.
pub proof fn lemma_angle_composites()
    ensures
        composite_row(0) == ('\u{226E}', '\u{003C}', '\u{0338}'),
        composite_row(2) == ('\u{226F}', '\u{003E}', '\u{0338}'),
{
    reveal(decomp_row);
    reveal(composite_row);
    reveal(COMPOSE);
    reveal(DECOMP_MID);
}

/// The canonical mapping row of the `k`-th primary composite.
pub fn composite_at(k: usize) -> (r: (char, char, char))
    requires
        k < COMPOSE_ROWS,
    ensures
        r == composite_row(k as int),
{
    reveal(composite_row);
    proof {
        lemma_composite_ok(k as int);
    }
    let rows: &'static [u16; 941] = &COMPOSE;
    decomp_at(rows[k] as usize)
}

} // verus!
