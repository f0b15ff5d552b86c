//! What the rows of the canonical mapping tables from U+2000 on satisfy.

use vstd::prelude::*;

use crate::unicode_data::{DECOMP_HIGH, DECOMP_LOW, DECOMP_MID};
use crate::unicode_rows::{
    decomp_row, in_high, in_low, in_mid, lemma_rows_at, row_ok, rows_ok, DECOMP_ROWS,
};

verus! {

#[verifier::rlimit(40)]
proof fn lemma_rows_889()
    ensures
        rows_ok(889, 944),
{
    reveal(decomp_row);
    reveal(DECOMP_LOW);
    reveal(DECOMP_MID);
    reveal_with_fuel(in_low, 11);
    reveal_with_fuel(in_mid, 11);
    reveal_with_fuel(rows_ok, 8);
}

#[verifier::rlimit(40)]
proof fn lemma_rows_944()
    ensures
        rows_ok(944, 999),
{
    reveal(decomp_row);
    reveal(DECOMP_MID);
    reveal_with_fuel(in_mid, 11);
    reveal_with_fuel(rows_ok, 8);
}

#[verifier::rlimit(40)]
proof fn lemma_rows_999()
    ensures
        rows_ok(999, 1050),
{
    reveal(decomp_row);
    reveal(DECOMP_MID);
    reveal_with_fuel(in_mid, 11);
    reveal_with_fuel(rows_ok, 8);
}

#[verifier::rlimit(40)]
proof fn lemma_rows_1050()
    ensures
        rows_ok(1050, 1100),
{
    reveal(decomp_row);
    reveal(DECOMP_MID);
    reveal_with_fuel(in_mid, 11);
    reveal_with_fuel(rows_ok, 8);
}

#[verifier::rlimit(40)]
proof fn lemma_rows_1100()
    ensures
        rows_ok(1100, 1150),
{
    reveal(decomp_row);
    reveal(DECOMP_MID);
    reveal_with_fuel(in_mid, 11);
    reveal_with_fuel(rows_ok, 8);
}

#[verifier::rlimit(40)]
proof fn lemma_rows_1150()
    ensures
        rows_ok(1150, 1200),
{
    reveal(decomp_row);
    reveal(DECOMP_MID);
    reveal_with_fuel(in_mid, 11);
    reveal_with_fuel(rows_ok, 8);
}

#[verifier::rlimit(40)]
proof fn lemma_rows_1200()
    ensures
        rows_ok(1200, 1264),
{
    reveal(decomp_row);
    reveal(DECOMP_MID);
    reveal_with_fuel(in_mid, 11);
    reveal_with_fuel(rows_ok, 8);
}

#[verifier::rlimit(40)]
proof fn lemma_rows_1264()
    ensures
        rows_ok(1264, 1328),
{
    reveal(decomp_row);
    reveal(DECOMP_MID);
    reveal_with_fuel(in_mid, 11);
    reveal_with_fuel(rows_ok, 8);
}

#[verifier::rlimit(40)]
proof fn lemma_rows_1328()
    ensures
        rows_ok(1328, 1392),
{
    reveal(decomp_row);
    reveal(DECOMP_MID);
    reveal_with_fuel(in_mid, 11);
    reveal_with_fuel(rows_ok, 8);
}

#[verifier::rlimit(40)]
proof fn lemma_rows_1392()
    ensures
        rows_ok(1392, 1456),
{
    reveal(decomp_row);
    reveal(DECOMP_MID);
    reveal_with_fuel(in_mid, 11);
    reveal_with_fuel(rows_ok, 8);
}

#[verifier::rlimit(40)]
proof fn lemma_rows_1456()
    ensures
        rows_ok(1456, 1493),
{
    reveal(decomp_row);
    reveal(DECOMP_LOW);
    reveal(DECOMP_MID);
    reveal(DECOMP_HIGH);
    reveal_with_fuel(in_low, 11);
    reveal_with_fuel(in_mid, 11);
    reveal_with_fuel(in_high, 11);
    reveal_with_fuel(rows_ok, 8);
}

#[verifier::rlimit(40)]
proof fn lemma_rows_1493()
    ensures
        rows_ok(1493, 1540),
{
    reveal(decomp_row);
    reveal(DECOMP_HIGH);
    reveal_with_fuel(in_high, 11);
    reveal_with_fuel(rows_ok, 8);
}

#[verifier::rlimit(40)]
proof fn lemma_rows_1540()
    ensures
        rows_ok(1540, 1604),
{
    reveal(decomp_row);
    reveal(DECOMP_HIGH);
    reveal_with_fuel(in_high, 11);
    reveal_with_fuel(rows_ok, 8);
}

#[verifier::rlimit(40)]
proof fn lemma_rows_1604()
    ensures
        rows_ok(1604, 1668),
{
    reveal(decomp_row);
    reveal(DECOMP_HIGH);
    reveal_with_fuel(in_high, 11);
    reveal_with_fuel(rows_ok, 8);
}

#[verifier::rlimit(40)]
proof fn lemma_rows_1668()
    ensures
        rows_ok(1668, 1732),
{
    reveal(decomp_row);
    reveal(DECOMP_HIGH);
    reveal_with_fuel(in_high, 11);
    reveal_with_fuel(rows_ok, 8);
}

#[verifier::rlimit(40)]
proof fn lemma_rows_1732()
    ensures
        rows_ok(1732, 1796),
{
    reveal(decomp_row);
    reveal(DECOMP_HIGH);
    reveal_with_fuel(in_high, 11);
    reveal_with_fuel(rows_ok, 8);
}

#[verifier::rlimit(40)]
proof fn lemma_rows_1796()
    ensures
        rows_ok(1796, 1860),
{
    reveal(decomp_row);
    reveal(DECOMP_HIGH);
    reveal_with_fuel(in_high, 11);
    reveal_with_fuel(rows_ok, 8);
}

#[verifier::rlimit(40)]
proof fn lemma_rows_1860()
    ensures
        rows_ok(1860, 1924),
{
    reveal(decomp_row);
    reveal(DECOMP_HIGH);
    reveal_with_fuel(in_high, 11);
    reveal_with_fuel(rows_ok, 8);
}

#[verifier::rlimit(40)]
proof fn lemma_rows_1924()
    ensures
        rows_ok(1924, 1988),
{
    reveal(decomp_row);
    reveal(DECOMP_HIGH);
    reveal_with_fuel(in_high, 11);
    reveal_with_fuel(rows_ok, 8);
}

#[verifier::rlimit(40)]
proof fn lemma_rows_1988()
    ensures
        rows_ok(1988, 2061),
{
    reveal(decomp_row);
    reveal(DECOMP_HIGH);
    reveal_with_fuel(in_high, 11);
    reveal_with_fuel(rows_ok, 8);
}

/// Every row from U+2000 on satisfies `row_ok`.
pub proof fn lemma_upper_row_ok(i: int)
    requires
        889 <= i < DECOMP_ROWS,
    ensures
        row_ok(i),
{
    if i < 944 {
        lemma_rows_889();
        lemma_rows_at(889, 944, i);
    } else if i < 999 {
        lemma_rows_944();
        lemma_rows_at(944, 999, i);
    } else if i < 1050 {
        lemma_rows_999();
        lemma_rows_at(999, 1050, i);
    } else if i < 1100 {
        lemma_rows_1050();
        lemma_rows_at(1050, 1100, i);
    } else if i < 1150 {
        lemma_rows_1100();
        lemma_rows_at(1100, 1150, i);
    } else if i < 1200 {
        lemma_rows_1150();
        lemma_rows_at(1150, 1200, i);
    } else if i < 1264 {
        lemma_rows_1200();
        lemma_rows_at(1200, 1264, i);
    } else if i < 1328 {
        lemma_rows_1264();
        lemma_rows_at(1264, 1328, i);
    } else if i < 1392 {
        lemma_rows_1328();
        lemma_rows_at(1328, 1392, i);
    } else if i < 1456 {
        lemma_rows_1392();
        lemma_rows_at(1392, 1456, i);
    } else if i < 1493 {
        lemma_rows_1456();
        lemma_rows_at(1456, 1493, i);
    } else if i < 1540 {
        lemma_rows_1493();
        lemma_rows_at(1493, 1540, i);
    } else if i < 1604 {
        lemma_rows_1540();
        lemma_rows_at(1540, 1604, i);
    } else if i < 1668 {
        lemma_rows_1604();
        lemma_rows_at(1604, 1668, i);
    } else if i < 1732 {
        lemma_rows_1668();
        lemma_rows_at(1668, 1732, i);
    } else if i < 1796 {
        lemma_rows_1732();
        lemma_rows_at(1732, 1796, i);
    } else if i < 1860 {
        lemma_rows_1796();
        lemma_rows_at(1796, 1860, i);
    } else if i < 1924 {
        lemma_rows_1860();
        lemma_rows_at(1860, 1924, i);
    } else if i < 1988 {
        lemma_rows_1924();
        lemma_rows_at(1924, 1988, i);
    } else {
        lemma_rows_1988();
        lemma_rows_at(1988, 2061, i);
    }
}

} // verus!
