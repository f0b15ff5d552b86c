//! In what order findings, renames and entries stand.

use vstd::prelude::*;
use vstd::utf8::{decode_utf8, valid_first_scalar, valid_utf8};

use crate::engine::Report;
use crate::fixname::{depth, Move};
use crate::order::{
    arranged, bytes_leq, codes, law_arranged, lemma_lex_total, lex_leq, numbers, parts_leq,
    text_leq, Ranked,
};
use crate::utf8::patched;
use crate::walker::Entry;

verus! {

proof fn lemma_lex_at(a: Seq<int>, b: Seq<int>, k: int)
    requires
        0 <= k <= a.len(),
        k <= b.len(),
        forall|i: int| 0 <= i < k ==> #[trigger] a[i] == b[i],
    ensures
        k == a.len() ==> lex_leq(a, b),
        k == b.len() && k < a.len() ==> !lex_leq(a, b),
        k < a.len() && k < b.len() && a[k] != b[k] ==> lex_leq(a, b) == (a[k] < b[k]),
    decreases k,
{
    if k > 0 {
        let u = a.skip(1);
        let v = b.skip(1);
        assert(a[0] == b[0]);
        assert forall|i: int| 0 <= i < k - 1 implies #[trigger] u[i] == v[i] by {
            assert(u[i] == a[i + 1] && v[i] == b[i + 1]);
        }
        lemma_lex_at(u, v, k - 1);
        assert(k < a.len() ==> u[k - 1] == a[k]);
        assert(k < b.len() ==> v[k - 1] == b[k]);
    }
}

/// Texts are ordered by the first character in which they differ, by its code point;
/// what another text begins with comes before that.
pub proof fn law_texts_are_ordered(a: Seq<char>, b: Seq<char>, k: int)
    requires
        0 <= k <= a.len(),
        k <= b.len(),
        forall|i: int| 0 <= i < k ==> #[trigger] a[i] == b[i],
    ensures
        k == a.len() ==> text_leq(a, b),
        k == b.len() && k < a.len() ==> !text_leq(a, b),
        k < a.len() && k < b.len() && a[k] != b[k] ==> text_leq(a, b) == (b[k] > a[k]),
{
    assert forall|i: int| 0 <= i < k implies #[trigger] codes(a)[i] == codes(b)[i] by {
        assert(a[i] == b[i]);
    }
    lemma_lex_at(codes(a), codes(b), k);
}

/// Byte strings are ordered by the first byte in which they differ; what another
/// begins with comes before that.
pub proof fn law_bytes_are_ordered(a: Seq<u8>, b: Seq<u8>, k: int)
    requires
        0 <= k <= a.len(),
        k <= b.len(),
        forall|i: int| 0 <= i < k ==> #[trigger] a[i] == b[i],
    ensures
        k == a.len() ==> bytes_leq(a, b),
        k == b.len() && k < a.len() ==> !bytes_leq(a, b),
        k < a.len() && k < b.len() && a[k] != b[k] ==> bytes_leq(a, b) == (a[k] < b[k]),
{
    assert forall|i: int| 0 <= i < k implies #[trigger] numbers(a)[i] == numbers(b)[i] by {
        assert(a[i] == b[i]);
    }
    lemma_lex_at(numbers(a), numbers(b), k);
}

/// Paths are ordered by the first component in which they differ; what another path
/// begins with comes before that.
pub proof fn law_parts_are_ordered(a: Seq<Seq<u8>>, b: Seq<Seq<u8>>, k: int)
    requires
        0 <= k <= a.len(),
        k <= b.len(),
        forall|i: int| 0 <= i < k ==> #[trigger] a[i] == b[i],
    ensures
        k == a.len() ==> parts_leq(a, b),
        k == b.len() && k < a.len() ==> !parts_leq(a, b),
        k < a.len() && k < b.len() && a[k] != b[k] ==> parts_leq(a, b) == bytes_leq(a[k], b[k]),
    decreases k,
{
    if k > 0 {
        let u = a.skip(1);
        let v = b.skip(1);
        assert(a[0] == b[0]);
        assert forall|i: int| 0 <= i < k - 1 implies #[trigger] u[i] == v[i] by {
            assert(u[i] == a[i + 1] && v[i] == b[i + 1]);
        }
        law_parts_are_ordered(u, v, k - 1);
        assert(k < a.len() ==> u[k - 1] == a[k]);
        assert(k < b.len() ==> v[k - 1] == b[k]);
    }
}

/// Findings stand in the order of their paths, and those on one path in the order of
/// their IDs.
pub proof fn law_findings_are_in_order(reports: Seq<Report>, i: int, j: int)
    requires
        0 <= i < j < reports.len(),
    ensures
        text_leq(arranged(reports)[i].path, arranged(reports)[j].path),
        arranged(reports)[i].path == arranged(reports)[j].path ==> text_leq(
            arranged(reports)[i].check.id,
            arranged(reports)[j].check.id,
        ),
{
    law_arranged(reports);
    let a = arranged(reports)[i];
    let b = arranged(reports)[j];
    assert(a.leq(b));
    lemma_lex_total(codes(a.path), codes(a.path));
}

/// Renames stand in the order of their depth, the deepest first; those of one depth in
/// the order of their directories; and those of one directory in the order of their
/// names as shown.
pub proof fn law_renames_are_in_order(moves: Seq<Move>, i: int, j: int)
    requires
        0 <= i < j < moves.len(),
    ensures
        ({
            let a = arranged(moves)[i];
            let b = arranged(moves)[j];
            &&& depth(a.dir) >= depth(b.dir)
            &&& depth(a.dir) == depth(b.dir) ==> text_leq(a.dir, b.dir)
            &&& a.dir == b.dir ==> text_leq(a.from_display, b.from_display)
        }),
{
    law_arranged(moves);
    let a = arranged(moves)[i];
    let b = arranged(moves)[j];
    assert(a.leq(b));
    lemma_lex_total(codes(a.dir), codes(a.dir));
}

/// The entries of a directory stand in the order of their names.
pub proof fn law_entries_are_in_order(listing: Seq<Entry>, i: int, j: int)
    requires
        0 <= i < j < listing.len(),
    ensures
        bytes_leq(arranged(listing)[i].name@, arranged(listing)[j].name@),
{
    law_arranged(listing);
    assert(arranged(listing)[i].leq(arranged(listing)[j]));
}

/// What is text at the start of bytes stays text.
pub proof fn law_patched_splits(a: Seq<u8>, b: Seq<u8>)
    requires
        valid_utf8(a),
    ensures
        patched(a + b) == decode_utf8(a) + patched(b),
    decreases a.len(),
{
    let s = a + b;
    if a.len() == 0 {
        assert(s == b);
        assert(decode_utf8(a) + patched(b) == patched(b));
    } else {
        let n = vstd::utf8::length_of_first_scalar(a);
        let rest = vstd::utf8::pop_first_scalar(a);
        assert(s[0] == a[0]);
        assert(a.len() > 1 ==> s[1] == a[1]);
        assert(a.len() > 2 ==> s[2] == a[2]);
        assert(a.len() > 3 ==> s[3] == a[3]);
        assert(valid_first_scalar(s));
        assert(vstd::utf8::pop_first_scalar(s) == rest + b);
        law_patched_splits(rest, b);
        let first = seq![vstd::utf8::decode_first_scalar(a) as char];
        assert(first + (decode_utf8(rest) + patched(b)) == first + decode_utf8(rest) + patched(b));
    }
}

/// A byte that begins no character becomes an underscore, and the rest goes on behind
/// it.
pub proof fn law_invalid_bytes_become_underscores(bytes: Seq<u8>)
    requires
        bytes.len() > 0,
        !valid_first_scalar(bytes),
    ensures
        patched(bytes) == seq!['_'] + patched(bytes.skip(1)),
{
}

} // verus!
