//! Where a plan leaves names: a renamed entry stays in its directory, and the path
//! of a later rename stays valid.

use vstd::prelude::*;


use crate::checks::{
    device_stem, extension_of, extension_start, fits, fitting, is_reserved, mended, mended_char,
    stem_of, Trouble,
};
use crate::engine::Selection;
use crate::fix_keys::lemma_deduped_is_free;
use crate::fix_laws::{is_drawn, law_truncated, lemma_fitting, lemma_short_fits, lemma_split};
use crate::fixname::{
    candidate, deduped, last_number, lemma_reserved_len, normalized, numbered, planned, planning,
    read, released, sanitized, sanitized_text, short_candidate, shortened, trimmed, without_trouble,
    Move,
};
use crate::numerals::{decimal, lemma_decimal, lemma_decimal_is_short};
use crate::order::arranged;
use crate::plan_laws::{lemma_planning, lemma_taken_count};
use crate::scan_laws::{law_inside_is_deeper, law_plan_is_deepest_first};
use crate::text::{begins, first_dot, lemma_first_dot, lemma_trim_end, lemma_trim_start, trim_start};
use crate::unicode_clean::law_nfc_adds_no_slash;
use crate::utf8::as_text;
use crate::walker::path_in;

verus! {

/// Does `s` hold no slash?
pub open spec fn is_slash_free(s: Seq<char>) -> bool {
    forall|i: int| 0 <= i < s.len() ==> #[trigger] s[i] != '/'
}

proof fn lemma_mended_slash(t: Trouble, s: Seq<char>)
    requires
        is_slash_free(s),
    ensures
        is_slash_free(mended(t, s)),
    decreases s.len(),
{
    reveal_strlit("-");
    reveal_strlit("'");
    reveal_strlit("(");
    reveal_strlit(")");
    reveal_strlit("");
    if s.len() > 0 {
        let u = s.drop_last();
        assert forall|i: int| 0 <= i < u.len() implies #[trigger] u[i] != '/' by {
            assert(u[i] == s[i]);
        }
        lemma_mended_slash(t, u);
        assert(s[s.len() - 1] != '/');
        assert(is_slash_free(mended_char(t, s.last())));
    }
}

/// A text drawn from one without a slash has none.
proof fn lemma_drawn_slash(r: Seq<char>, s: Seq<char>)
    requires
        is_drawn(r, s),
        is_slash_free(s),
    ensures
        is_slash_free(r),
{
    assert forall|i: int| 0 <= i < r.len() implies #[trigger] r[i] != '/' by {
        if s.contains(r[i]) {
            let j = choose|j: int| 0 <= j < s.len() && s[j] == r[i];
            assert(s[j] != '/');
        }
    }
}

proof fn lemma_trimmed_slash(s: Seq<char>, sel: Selection)
    requires
        is_slash_free(s),
    ensures
        is_slash_free(trimmed(s, sel)),
{
    let a = if sel.runs(4) {
        trim_start(s)
    } else {
        s
    };
    lemma_trim_start(s);
    assert forall|i: int| 0 <= i < a.len() implies #[trigger] a[i] != '/' by {
        assert(a[i] == s[s.len() - a.len() + i]);
    }
    lemma_trim_end(a);
    let b = trimmed(s, sel);
    assert forall|i: int| 0 <= i < b.len() implies #[trigger] b[i] != '/' by {
        assert(b[i] == a[i]);
    }
}

proof fn lemma_released_slash(s: Seq<char>)
    requires
        is_slash_free(s),
        is_reserved(device_stem(s)),
    ensures
        is_slash_free(released(s)),
{
    reveal_strlit("_");
    let stem = device_stem(s);
    lemma_reserved_len(stem);
    lemma_first_dot(s);
    lemma_trim_end(s.take(first_dot(s)));
    assert forall|i: int| 0 <= i < stem.len() implies #[trigger] stem[i] != '/' by {
        assert(stem[i] == s[i]);
    }
    let rest = s.skip(stem.len() as int);
    assert forall|i: int| 0 <= i < rest.len() implies #[trigger] rest[i] != '/' by {
        assert(rest[i] == s[i + stem.len()]);
    }
}

/// Sanitizing brings in no slash.
pub proof fn law_sanitize_adds_no_slash(s: Seq<char>, sel: Selection)
    requires
        is_slash_free(s),
    ensures
        is_slash_free(sanitized_text(s, sel)),
{
    reveal_strlit("_");
    let a = if sel.runs(2) {
        mended(Trouble::Control, s)
    } else {
        s
    };
    let b = if sel.runs(1) {
        mended(Trouble::Illegal, a)
    } else {
        a
    };
    lemma_mended_slash(Trouble::Control, s);
    lemma_mended_slash(Trouble::Illegal, a);
    lemma_mended_slash(Trouble::Invisible, b);
    let c = without_trouble(s, sel);
    law_nfc_adds_no_slash(c);
    let d = normalized(c, sel);
    lemma_trimmed_slash(d, sel);
    let e = trimmed(d, sel);
    let f = shortened(e, sel);
    if f != e {
        law_truncated(e);
        lemma_drawn_slash(f, e);
    }
    if is_reserved(device_stem(f)) {
        lemma_released_slash(f);
    }
}

/// Bumping a name brings in no slash.
proof fn lemma_deduped_slash(s: Seq<char>, taken: Seq<Seq<char>>)
    requires
        is_slash_free(s),
        taken.len() <= u64::MAX,
    ensures
        is_slash_free(deduped(s, taken)),
{
    reveal_strlit("-");
    let to = deduped(s, taken);
    let stem = stem_of(s);
    let ext = extension_of(s);
    lemma_split(s);
    lemma_deduped_is_free(s, taken);
    assert(is_slash_free(ext)) by {
        assert forall|i: int| 0 <= i < ext.len() implies #[trigger] ext[i] != '/' by {
            assert(ext[i] == s[i + extension_start(s)]);
        }
    }
    if to == s {
    } else if exists|k: nat| 2 <= k <= last_number(taken) && to == #[trigger] candidate(s, k) {
        let k = choose|k: nat| 2 <= k <= last_number(taken) && to == #[trigger] candidate(s, k);
        let r = numbered(s, k);
        lemma_numbered_slash(stem, ext, k);
        if !fits(r) {
            law_truncated(r);
            lemma_drawn_slash(to, r);
        }
    } else {
        let k = choose|k: nat|
            2 <= k <= last_number(taken) && to == #[trigger] short_candidate(s, k);
        let tail = "-"@ + decimal(k) + ext;
        lemma_decimal_is_short(k);
        lemma_short_fits(tail);
        lemma_fitting(stem, tail);
        let cut = fitting(stem, tail);
        assert forall|i: int| 0 <= i < cut.len() implies #[trigger] cut[i] != '/' by {
            assert(cut[i] == s[i]);
        }
        lemma_numbered_slash(cut, ext, k);
        assert(to == cut + "-"@ + decimal(k) + ext);
    }
}

proof fn lemma_numbered_slash(stem: Seq<char>, ext: Seq<char>, k: nat)
    requires
        is_slash_free(stem),
        is_slash_free(ext),
    ensures
        is_slash_free(stem + "-"@ + decimal(k) + ext),
{
    reveal_strlit("-");
    lemma_decimal(k, 1);
    let digits = decimal(k);
    assert forall|i: int| 0 <= i < digits.len() implies #[trigger] digits[i] != '/' by {
        assert('0' <= digits[i] <= '9');
    }
}

/// A renamed entry stays in its directory: a name without a slash gets a new name
/// without one.
pub proof fn law_plan_stays_in_place(names: Seq<Seq<u8>>, sel: Selection, a: int)
    requires
        names.len() <= u64::MAX,
        0 <= a < planned(names, sel).len(),
        is_slash_free(read(names[planned(names, sel)[a].0], sel)),
    ensures
        is_slash_free(planned(names, sel)[a].1),
{
    let n = names.len() as int;
    lemma_planning(names, sel, n);
    let (i, to) = planning(names, sel, n).plan[a];
    law_sanitize_adds_no_slash(read(names[i], sel), sel);
    lemma_taken_count(names, sel, i);
    lemma_deduped_slash(sanitized(names[i], sel), planning(names, sel, i).taken);
}

/// Carrying out a plan from top to bottom never invalidates a path: the directory
/// of a later rename does not lie in what an earlier one renames.
pub proof fn law_plan_keeps_paths_valid(moves: Seq<Move>, i: int, j: int)
    requires
        0 <= i < j < moves.len(),
        ({
            let name = as_text(arranged(moves)[i].from);
            name.len() > 0 && name[0] != '/'
        }),
    ensures
        !begins(
            arranged(moves)[j].dir,
            path_in(arranged(moves)[i].dir, arranged(moves)[i].from),
        ),
{
    let first = arranged(moves)[i];
    let later = arranged(moves)[j];
    law_plan_is_deepest_first(moves, i, j);
    if begins(later.dir, path_in(first.dir, first.from)) {
        law_inside_is_deeper(first.dir, as_text(first.from), later.dir);
    }
}

} // verus!
