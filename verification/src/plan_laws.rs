//! What a rename plan for a directory guarantees: no planned name collides with
//! another planned or kept one, and the directory needs no further plan.

use vstd::prelude::*;
use vstd::utf8::{
    decode_utf8, decode_utf8_encode_utf8, encode_utf8, encode_utf8_decode_utf8,
    encode_utf8_valid_utf8, is_ascii_chars_encode_utf8, valid_utf8,
};

use crate::bumps::{lemma_deduped_unreserved, lemma_dots_bumped};
use crate::checks::{
    device_stem, extension_of, extension_start, fits, fitting, is_in, is_reserved, stem_of, Trouble,
};
use crate::engine::Selection;
use crate::fix_keys::lemma_deduped_is_free;
use crate::fix_laws::{
    is_clean, is_free_of, law_clean_names_stay, law_sanitized_is_clean, law_truncated,
    lemma_drawn_free, lemma_fitting, lemma_nfc_joint, lemma_nfc_parts, lemma_read_text,
    lemma_short_fits, lemma_split,
};
use crate::fixname::{
    candidate, collisions_matter, deduped, is_dots, is_free, is_own, kept_keys, key_of, last_number,
    lemma_kept_keys, numbered, planned, planning, read, sanitized, short_candidate, stays, Planning,
};
use crate::numerals::{decimal, lemma_decimal, lemma_decimal_is_short};
use crate::scan_laws::runs_all;
use crate::text::is_stripped;
use crate::unicode::{casefold, nfc};
use crate::unicode_cuts::law_nfc_prefix;
use crate::unicode_laws::{is_boundary, law_ascii_is_nfc};
use crate::utf8::lemma_patched_shows;

verus! {

/// The keys of planned names.
pub open spec fn plan_keys(plan: Seq<(int, Seq<char>)>) -> Seq<Seq<char>> {
    plan.map_values(|p: (int, Seq<char>)| casefold(p.1))
}

/// The new name of the `i`-th name, which does not stay.
pub open spec fn target(names: Seq<Seq<u8>>, sel: Selection, i: int) -> Seq<char> {
    deduped(sanitized(names[i], sel), planning(names, sel, i).taken)
}

/// Is `p` a plan for the first `k` names, of which those that do not stay get the
/// names of `goal`, where the keys `kept` are taken from the outset?
spec fn is_plan(
    p: Planning,
    k: int,
    stay: spec_fn(int) -> bool,
    goal: spec_fn(int) -> Seq<char>,
    kept: Seq<Seq<char>>,
) -> bool {
    &&& p.taken == kept + plan_keys(p.plan)
    &&& forall|a: int|
        0 <= a < p.plan.len() ==> {
            let (i, to) = #[trigger] p.plan[a];
            &&& 0 <= i < k
            &&& !stay(i)
            &&& to == goal(i)
            &&& !kept.contains(casefold(to))
        }
    &&& forall|a: int, b: int|
        0 <= a < b < p.plan.len() ==> (#[trigger] p.plan[a]).0 < (#[trigger] p.plan[b]).0
            && casefold(p.plan[a].1) != casefold(p.plan[b].1)
    &&& forall|i: int|
        0 <= i < k && !#[trigger] stay(i) ==> exists|a: int|
            0 <= a < p.plan.len() && (#[trigger] p.plan[a]).0 == i
}

/// One more rename takes one more key.
proof fn lemma_plan_step(
    p: Planning,
    q: Planning,
    k: int,
    stay: spec_fn(int) -> bool,
    goal: spec_fn(int) -> Seq<char>,
    kept: Seq<Seq<char>>,
)
    requires
        is_plan(p, k, stay, goal, kept),
        0 <= k,
        !stay(k),
        q.plan == p.plan.push((k, goal(k))),
        q.taken == p.taken.push(casefold(goal(k))),
        is_free(goal(k), p.taken),
    ensures
        is_plan(q, k + 1, stay, goal, kept),
{
    let to = goal(k);
    assert(plan_keys(q.plan) == plan_keys(p.plan).push(casefold(to)));
    assert(q.taken == kept + plan_keys(q.plan));
    if kept.contains(casefold(to)) {
        let j = choose|j: int| 0 <= j < kept.len() && kept[j] == casefold(to);
        assert(p.taken[j] == casefold(to));
    }
    assert forall|a: int| 0 <= a < p.plan.len() implies casefold((#[trigger] p.plan[a]).1)
        != casefold(to) by {
        assert(p.taken[kept.len() + a] == plan_keys(p.plan)[a]);
    }
    assert forall|i: int| 0 <= i < k + 1 && !#[trigger] stay(i) implies exists|a: int|
        0 <= a < q.plan.len() && (#[trigger] q.plan[a]).0 == i by {
        if i < k {
            let a = choose|a: int| 0 <= a < p.plan.len() && (#[trigger] p.plan[a]).0 == i;
            assert(q.plan[a].0 == i);
        } else {
            assert(q.plan[p.plan.len() as int].0 == i);
        }
    }
}

proof fn lemma_is_plan(names: Seq<Seq<u8>>, sel: Selection, k: int)
    requires
        0 <= k <= names.len(),
    ensures
        is_plan(
            planning(names, sel, k),
            k,
            |i: int| stays(names, sel, i),
            |i: int| target(names, sel, i),
            kept_keys(names, sel, names.len() as int),
        ),
    decreases k,
{
    let stay = |i: int| stays(names, sel, i);
    let goal = |i: int| target(names, sel, i);
    let kept = kept_keys(names, sel, names.len() as int);
    let q = planning(names, sel, k);
    if k == 0 {
        assert(plan_keys(q.plan) == Seq::<Seq<char>>::empty());
        assert(kept + plan_keys(q.plan) == kept);
    } else {
        lemma_is_plan(names, sel, k - 1);
        let p = planning(names, sel, k - 1);
        if stay(k - 1) {
            assert(q == p);
        } else {
            lemma_deduped_is_free(sanitized(names[k - 1], sel), p.taken);
            lemma_plan_step(p, q, k - 1, stay, goal, kept);
        }
    }
}

/// What a plan for the first `k` names holds.
pub proof fn lemma_planning(names: Seq<Seq<u8>>, sel: Selection, k: int)
    requires
        0 <= k <= names.len(),
    ensures
        planning(names, sel, k).taken == kept_keys(names, sel, names.len() as int) + plan_keys(
            planning(names, sel, k).plan,
        ),
        forall|a: int|
            0 <= a < planning(names, sel, k).plan.len() ==> {
                let (i, to) = #[trigger] planning(names, sel, k).plan[a];
                &&& 0 <= i < k
                &&& !stays(names, sel, i)
                &&& to == target(names, sel, i)
                &&& !kept_keys(names, sel, names.len() as int).contains(casefold(to))
            },
        forall|a: int, b: int|
            0 <= a < b < planning(names, sel, k).plan.len() ==> (#[trigger] planning(
                names,
                sel,
                k,
            ).plan[a]).0 < (#[trigger] planning(names, sel, k).plan[b]).0 && casefold(
                planning(names, sel, k).plan[a].1,
            ) != casefold(planning(names, sel, k).plan[b].1),
        forall|i: int|
            0 <= i < k && !#[trigger] stays(names, sel, i) ==> exists|a: int|
                0 <= a < planning(names, sel, k).plan.len() && (#[trigger] planning(
                    names,
                    sel,
                    k,
                ).plan[a]).0 == i,
{
    let stay = |i: int| stays(names, sel, i);
    lemma_is_plan(names, sel, k);
    assert forall|i: int| 0 <= i < k && !#[trigger] stays(names, sel, i) implies exists|a: int|
        0 <= a < planning(names, sel, k).plan.len() && (#[trigger] planning(
            names,
            sel,
            k,
        ).plan[a]).0 == i by {
        assert(!stay(i));
    }
}

/// The key of a name that stays is taken.
proof fn lemma_kept_key(names: Seq<Seq<u8>>, sel: Selection, k: int, i: int)
    requires
        0 <= i < k,
        stays(names, sel, i),
    ensures
        kept_keys(names, sel, k).contains(key_of(names[i], sel)),
    decreases k,
{
    let now = kept_keys(names, sel, k);
    if i == k - 1 {
        assert(now[now.len() - 1] == key_of(names[i], sel));
    } else {
        lemma_kept_key(names, sel, k - 1, i);
        let before = kept_keys(names, sel, k - 1);
        let j = choose|j: int| 0 <= j < before.len() && before[j] == key_of(names[i], sel);
        assert(now[j] == before[j]);
    }
}

/// A name that is its own sanitized form is text, and its key is that of the text.
proof fn lemma_own(name: Seq<u8>, sel: Selection)
    requires
        is_own(name, sel),
    ensures
        valid_utf8(name),
        decode_utf8(name) == sanitized(name, sel),
        key_of(name, sel) == casefold(decode_utf8(name)),
{
    encode_utf8_valid_utf8(sanitized(name, sel));
    encode_utf8_decode_utf8(sanitized(name, sel));
}

/// A planned name never collides with a name that stays.
pub proof fn law_plan_spares_kept_names(names: Seq<Seq<u8>>, sel: Selection, a: int, i: int)
    requires
        0 <= a < planned(names, sel).len(),
        0 <= i < names.len(),
        stays(names, sel, i),
    ensures
        valid_utf8(names[i]),
        casefold(planned(names, sel)[a].1) != casefold(decode_utf8(names[i])),
{
    lemma_planning(names, sel, names.len() as int);
    lemma_own(names[i], sel);
    lemma_kept_key(names, sel, names.len() as int, i);
    let (j, to) = planned(names, sel)[a];
}

/// Two planned names never collide with each other.
pub proof fn law_plan_names_differ(names: Seq<Seq<u8>>, sel: Selection, a: int, b: int)
    requires
        0 <= a < planned(names, sel).len(),
        0 <= b < planned(names, sel).len(),
        a != b,
    ensures
        casefold(planned(names, sel)[a].1) != casefold(planned(names, sel)[b].1),
        planned(names, sel)[a].0 != planned(names, sel)[b].0,
{
    lemma_planning(names, sel, names.len() as int);
    if a < b {
        assert(planned(names, sel)[a].0 < planned(names, sel)[b].0);
    } else {
        assert(planned(names, sel)[b].0 < planned(names, sel)[a].0);
    }
}

/// The names that are planned for are those that do not stay.
pub proof fn law_plan_covers(names: Seq<Seq<u8>>, sel: Selection, i: int)
    requires
        0 <= i < names.len(),
    ensures
        stays(names, sel, i) <==> forall|a: int|
            0 <= a < planned(names, sel).len() ==> (#[trigger] planned(names, sel)[a]).0 != i,
{
    lemma_planning(names, sel, names.len() as int);
    assert forall|a: int| stays(names, sel, i) && 0 <= a < planned(names, sel).len() implies (
    #[trigger] planned(names, sel)[a]).0 != i by {
        let (j, to) = planned(names, sel)[a];
    }
    if !stays(names, sel, i) {
        let a = choose|a: int|
            0 <= a < planned(names, sel).len() && (#[trigger] planning(
                names,
                sel,
                names.len() as int,
            ).plan[a]).0 == i;
        assert(planned(names, sel)[a].0 == i);
    }
}

// ---------------------------------------------------------------------------
// Convergence
// ---------------------------------------------------------------------------
/// A name that is cut to `m` characters of its stem, with a number before its
/// extension.
spec fn cut_numbered(s: Seq<char>, m: int, n: nat) -> Seq<char> {
    s.take(m) + (seq!['-'] + decimal(n)) + extension_of(s)
}

/// Numbering a clean name, with its stem cut or not, keeps what the fixes have
/// made, but for the budgets and the device names.
proof fn lemma_cut_numbered(s: Seq<char>, m: int, n: nat, sel: Selection)
    requires
        is_clean(s, sel),
        0 <= m <= stem_of(s).len(),
    ensures
        ({
            let r = cut_numbered(s, m, n);
            &&& r.len() > 0
            &&& forall|t: Trouble| #[trigger] is_free_of(t, s) ==> is_free_of(t, r)
            &&& sel.runs(7) ==> nfc(r) == r
            &&& sel.runs(4) ==> r[0] != ' '
            &&& sel.runs(3) ==> !is_stripped(r.last())
        }),
{
    let stem = s.take(m);
    let ext = extension_of(s);
    let dash = seq!['-'] + decimal(n);
    let r = cut_numbered(s, m, n);
    lemma_split(s);
    lemma_decimal(n, 1);
    assert(r == stem + dash + ext);
    assert forall|i: int| 0 <= i < dash.len() implies #[trigger] dash[i] == '-' || '0' <= dash[i]
        <= '9' by {
        if i > 0 {
            assert(dash[i] == decimal(n)[i - 1]);
        }
    }
    assert forall|t: Trouble| #[trigger] is_free_of(t, s) implies is_free_of(t, r) by {
        assert forall|i: int| 0 <= i < r.len() implies !is_in(t, #[trigger] r[i]) by {
            if i < m {
                assert(r[i] == s[i]);
            } else if i < m + dash.len() {
                assert(r[i] == dash[i - m]);
            } else {
                assert(r[i] == s[i - m - dash.len() + extension_start(s)]);
            }
        }
    }
    if sel.runs(7) {
        lemma_nfc_parts(s, extension_start(s));
        law_nfc_prefix(s, m);
        assert forall|i: int| 0 <= i < dash.len() implies is_boundary(#[trigger] dash[i]) by {
            assert(dash[i] == '-' || '0' <= dash[i] <= '9');
        }
        law_ascii_is_nfc(dash);
        lemma_nfc_joint(stem, dash);
        lemma_nfc_joint(stem + dash, ext);
    }
    if m > 0 {
        assert(r[0] == s[0]);
    } else {
        assert(r[0] == '-');
    }
    if ext.len() > 0 {
        assert(r.last() == s.last());
    } else {
        assert(r.last() == dash[dash.len() - 1]);
    }
}

/// As many keys are taken as there are names at most.
pub proof fn lemma_taken_count(names: Seq<Seq<u8>>, sel: Selection, k: int)
    requires
        0 <= k <= names.len(),
    ensures
        planning(names, sel, k).taken.len() <= names.len(),
{
    lemma_planning(names, sel, k);
    lemma_counts(names, sel, k, k);
    lemma_counts(names, sel, k, names.len() as int);
    assert(plan_keys(planning(names, sel, k).plan).len() == planning(names, sel, k).plan.len());
}

proof fn lemma_counts(names: Seq<Seq<u8>>, sel: Selection, k: int, n: int)
    requires
        0 <= k <= n,
    ensures
        kept_keys(names, sel, k).len() + planning(names, sel, k).plan.len() == k,
        kept_keys(names, sel, n).len() <= kept_keys(names, sel, k).len() + (n - k),
    decreases n,
{
    if k < n {
        lemma_counts(names, sel, k, n - 1);
    } else if k > 0 {
        lemma_counts(names, sel, k - 1, k - 1);
    }
}

/// A bumped name is clean, but that cutting it to the budgets can uncover a device
/// name.
proof fn lemma_deduped_is_clean(s: Seq<char>, taken: Seq<Seq<char>>, sel: Selection)
    requires
        is_clean(s, sel),
        taken.len() <= u64::MAX,
        sel.runs(0) ==> !is_reserved(device_stem(deduped(s, taken))),
    ensures
        is_clean(deduped(s, taken), sel),
{
    reveal_strlit("-");
    assert("-"@ == seq!['-']);
    let to = deduped(s, taken);
    let stem = stem_of(s);
    let ext = extension_of(s);
    lemma_split(s);
    lemma_deduped_is_free(s, taken);
    if to == s {
    } else if exists|k: nat| 2 <= k <= last_number(taken) && to == #[trigger] candidate(s, k) {
        let k = choose|k: nat| 2 <= k <= last_number(taken) && to == #[trigger] candidate(s, k);
        let r = numbered(s, k);
        assert(r == cut_numbered(s, stem.len() as int, k));
        lemma_cut_numbered(s, stem.len() as int, k, sel);
        if !fits(r) {
            law_truncated(r);
            assert forall|t: Trouble| #[trigger] is_free_of(t, s) implies is_free_of(t, to) by {
                assert(is_free_of(t, r));
                lemma_drawn_free(t, to, r);
            }
        }
    } else {
        let k = choose|k: nat|
            2 <= k <= last_number(taken) && to == #[trigger] short_candidate(s, k);
        let tail = "-"@ + decimal(k) + ext;
        lemma_decimal_is_short(k);
        lemma_short_fits(tail);
        lemma_fitting(stem, tail);
        let m = fitting(stem, tail).len() as int;
        assert(stem.take(m) == s.take(m));
        assert(to == cut_numbered(s, m, k));
        lemma_cut_numbered(s, m, k, sel);
    }
}

/// Is the `i`-th name one that a single plan settles? Not so are two dots that
/// share their key with another name, which no directory lists; and, where names
/// are not cut to the budgets, one that numbering leaves with a device name as its
/// stem: it is cut all the same where the number makes it too long.
pub open spec fn is_settled_by_plan(names: Seq<Seq<u8>>, sel: Selection, i: int) -> bool {
    stays(names, sel, i) || {
        &&& sel.runs(3) ==> sanitized(names[i], sel) != ".."@
        &&& sel.runs(0) && !sel.runs(9) ==> !is_reserved(device_stem(target(names, sel, i)))
    }
}

/// The `i`-th name after the plan is carried out.
pub open spec fn outcome(names: Seq<Seq<u8>>, sel: Selection, i: int) -> Seq<u8> {
    if stays(names, sel, i) {
        names[i]
    } else {
        encode_utf8(target(names, sel, i))
    }
}

/// A name that a plan settles is its own sanitized form afterwards.
proof fn lemma_outcome(names: Seq<Seq<u8>>, sel: Selection, i: int)
    requires
        0 <= i < names.len() <= u64::MAX,
        is_settled_by_plan(names, sel, i),
    ensures
        is_own(outcome(names, sel, i), sel),
        key_of(outcome(names, sel, i), sel) == if stays(names, sel, i) {
            key_of(names[i], sel)
        } else {
            casefold(target(names, sel, i))
        },
{
    if !stays(names, sel, i) {
        let from = sanitized(names[i], sel);
        let to = target(names, sel, i);
        let text = read(names[i], sel);
        let taken = planning(names, sel, i).taken;
        lemma_taken_count(names, sel, i);
        if !is_dots(text) {
            law_sanitized_is_clean(text, sel);
            if sel.runs(0) && sel.runs(9) {
                lemma_deduped_unreserved(from, taken);
            }
            lemma_deduped_is_clean(from, taken, sel);
            law_clean_names_stay(to, sel);
        } else if to != from {
            lemma_dots_bumped(from, taken, sel);
            law_clean_names_stay(to, sel);
        }
        lemma_read_text(to, sel);
    }
}

/// A plan overwrites nothing: where it settles a name, the new name is that of no
/// entry of the directory, neither of one that stays nor of one that is renamed.
pub proof fn law_plan_overwrites_nothing(names: Seq<Seq<u8>>, sel: Selection, a: int, j: int)
    requires
        names.len() <= u64::MAX,
        0 <= a < planned(names, sel).len(),
        is_settled_by_plan(names, sel, planned(names, sel)[a].0),
        0 <= j < names.len(),
    ensures
        encode_utf8(planned(names, sel)[a].1) != names[j],
{
    let n = names.len() as int;
    lemma_planning(names, sel, n);
    let (i, to) = planning(names, sel, n).plan[a];
    lemma_outcome(names, sel, i);
    if encode_utf8(to) == names[j] {
        assert(is_own(names[j], sel) && key_of(names[j], sel) == casefold(to));
        if stays(names, sel, j) {
            lemma_kept_key(names, sel, n, j);
        } else {
            lemma_kept_keys(names, sel, n, casefold(to));
        }
    }
}

/// Where every name is its own sanitized form and no two collide, nothing is
/// planned.
pub proof fn law_settled_needs_no_plan(names: Seq<Seq<u8>>, sel: Selection)
    requires
        forall|i: int| 0 <= i < names.len() ==> is_own(#[trigger] names[i], sel),
        collisions_matter(sel) ==> forall|i: int, j: int|
            0 <= i < j < names.len() ==> key_of(#[trigger] names[i], sel) != key_of(
                #[trigger] names[j],
                sel,
            ),
    ensures
        planned(names, sel).len() == 0,
{
    lemma_planning(names, sel, names.len() as int);
    if planned(names, sel).len() > 0 {
        let (i, to) = planned(names, sel)[0];
        assert(!stays(names, sel, i));
        assert(is_own(names[i], sel));
        let j = choose|j: int|
            0 <= j < i && #[trigger] is_own(names[j], sel) && key_of(names[j], sel) == key_of(
                names[i],
                sel,
            );
        assert(key_of(names[j], sel) != key_of(names[i], sel));
    }
}

/// A plan converges: once it is carried out, nothing is planned for the directory,
/// in whatever order its names are listed.
pub proof fn law_plan_converges(
    names: Seq<Seq<u8>>,
    sel: Selection,
    order: Seq<int>,
    again: Seq<Seq<u8>>,
)
    requires
        names.len() <= u64::MAX,
        forall|i: int| 0 <= i < names.len() ==> #[trigger] is_settled_by_plan(names, sel, i),
        order.no_duplicates(),
        forall|i: int| 0 <= i < order.len() ==> 0 <= #[trigger] order[i] < names.len(),
        again.len() == order.len(),
        forall|i: int|
            0 <= i < again.len() ==> #[trigger] again[i] == outcome(names, sel, order[i]),
    ensures
        planned(again, sel).len() == 0,
{
    assert forall|i: int| 0 <= i < again.len() implies is_own(#[trigger] again[i], sel) by {
        assert(is_settled_by_plan(names, sel, order[i]));
        lemma_outcome(names, sel, order[i]);
    }
    if collisions_matter(sel) {
        assert forall|i: int, j: int| 0 <= i < j < again.len() implies key_of(
            #[trigger] again[i],
            sel,
        ) != key_of(#[trigger] again[j], sel) by {
            let a = order[i];
            let b = order[j];
            assert(a != b);
            assert(is_settled_by_plan(names, sel, a));
            assert(is_settled_by_plan(names, sel, b));
            lemma_outcome(names, sel, a);
            lemma_outcome(names, sel, b);
            lemma_outcomes_differ(names, sel, a, b);
        }
    }
    law_settled_needs_no_plan(again, sel);
}

/// The keys after a plan differ.
proof fn lemma_outcomes_differ(names: Seq<Seq<u8>>, sel: Selection, a: int, b: int)
    requires
        collisions_matter(sel),
        0 <= a < names.len(),
        0 <= b < names.len(),
        a != b,
    ensures
        ({
            let x = if stays(names, sel, a) {
                key_of(names[a], sel)
            } else {
                casefold(target(names, sel, a))
            };
            let y = if stays(names, sel, b) {
                key_of(names[b], sel)
            } else {
                casefold(target(names, sel, b))
            };
            x != y
        }),
{
    let n = names.len() as int;
    lemma_planning(names, sel, n);
    let plan = planning(names, sel, n).plan;
    if stays(names, sel, a) && stays(names, sel, b) {
        if a < b {
            assert(is_own(names[a], sel));
        } else {
            assert(is_own(names[b], sel));
        }
    } else if stays(names, sel, a) {
        lemma_kept_key(names, sel, n, a);
        let q = choose|q: int| 0 <= q < plan.len() && (#[trigger] plan[q]).0 == b;
        let (j, to) = plan[q];
    } else if stays(names, sel, b) {
        lemma_kept_key(names, sel, n, b);
        let q = choose|q: int| 0 <= q < plan.len() && (#[trigger] plan[q]).0 == a;
        let (j, to) = plan[q];
    } else {
        let p = choose|p: int| 0 <= p < plan.len() && (#[trigger] plan[p]).0 == a;
        let q = choose|q: int| 0 <= q < plan.len() && (#[trigger] plan[q]).0 == b;
        let (i, from) = plan[p];
        let (j, to) = plan[q];
        assert(p != q);
        if p < q {
            assert(casefold(plan[p].1) != casefold(plan[q].1));
        } else {
            assert(casefold(plan[q].1) != casefold(plan[p].1));
        }
    }
}

/// The names of a directory after its plan is carried out.
pub open spec fn outcomes(names: Seq<Seq<u8>>, sel: Selection) -> Seq<Seq<u8>> {
    Seq::new(names.len(), |i: int| outcome(names, sel, i))
}

/// With every check on, only two dots sanitize to two dots.
proof fn lemma_not_parent(name: Seq<u8>, sel: Selection)
    requires
        runs_all(sel),
        name != seq![0x2Eu8, 0x2Eu8],
    ensures
        sanitized(name, sel) != ".."@,
{
    reveal_strlit(".");
    reveal_strlit("..");
    let text = read(name, sel);
    assert(sel.runs(3) && sel.runs(12));
    if !is_dots(text) {
        law_sanitized_is_clean(text, sel);
        assert(is_stripped(".."@.last()));
    } else if !valid_utf8(name) {
        lemma_patched_shows(name);
        let i = choose|i: int| 0 <= i < text.len() && text[i] == '_';
        assert(text[i] == '.');
    } else if text == ".."@ {
        decode_utf8_encode_utf8(name);
        lemma_two_dots();
    }
}

/// Two dots are two bytes.
proof fn lemma_two_dots()
    ensures
        encode_utf8(".."@) == seq![0x2Eu8, 0x2Eu8],
{
    reveal_strlit("..");
    is_ascii_chars_encode_utf8(".."@);
    assert(encode_utf8(".."@) =~= seq![0x2Eu8, 0x2Eu8]);
}

/// A fixed directory needs no second fix: with every check on, nothing is planned
/// for a directory once its plan is carried out, in whatever order its names are
/// then listed. (A directory does not list its parent as an entry.)
pub proof fn law_fixed_directories_stay(
    names: Seq<Seq<u8>>,
    sel: Selection,
    after: Seq<Seq<u8>>,
)
    requires
        runs_all(sel),
        names.len() <= u64::MAX,
        forall|i: int| 0 <= i < names.len() ==> #[trigger] names[i] != seq![0x2Eu8, 0x2Eu8],
        after.to_multiset() == outcomes(names, sel).to_multiset(),
    ensures
        planned(after, sel).len() == 0,
{
    broadcast use vstd::seq_lib::group_to_multiset_ensures;

    let now = outcomes(names, sel);
    assert(sel.runs(0) && sel.runs(5) && sel.runs(9));
    assert forall|i: int| 0 <= i < names.len() implies #[trigger] is_settled_by_plan(
        names,
        sel,
        i,
    ) by {
        assert(names[i] != seq![0x2Eu8, 0x2Eu8]);
        lemma_not_parent(names[i], sel);
    }
    assert forall|i: int, j: int|
        0 <= i < now.len() && 0 <= j < now.len() && i != j implies key_of(#[trigger] now[i], sel)
        != key_of(#[trigger] now[j], sel) by {
        assert(is_settled_by_plan(names, sel, i) && is_settled_by_plan(names, sel, j));
        lemma_outcome(names, sel, i);
        lemma_outcome(names, sel, j);
        lemma_outcomes_differ(names, sel, i, j);
    }
    assert(now.no_duplicates()) by {
        assert forall|i: int, j: int|
            0 <= i < now.len() && 0 <= j < now.len() && i != j implies now[i] != now[j] by {
            assert(key_of(now[i], sel) != key_of(now[j], sel));
        }
    }
    now.lemma_multiset_has_no_duplicates();
    after.lemma_multiset_has_no_duplicates_conv();
    assert forall|x: Seq<u8>| #[trigger] after.contains(x) implies now.contains(x) by {
        assert(after.to_multiset().count(x) == now.to_multiset().count(x));
    }
    assert forall|i: int| 0 <= i < after.len() implies is_own(#[trigger] after[i], sel) by {
        assert(after.contains(after[i]));
        let a = choose|a: int| 0 <= a < now.len() && now[a] == after[i];
        assert(is_settled_by_plan(names, sel, a));
        lemma_outcome(names, sel, a);
    }
    assert forall|i: int, j: int| 0 <= i < j < after.len() implies key_of(#[trigger] after[i], sel)
        != key_of(#[trigger] after[j], sel) by {
        assert(after.contains(after[i]) && after.contains(after[j]));
        let a = choose|a: int| 0 <= a < now.len() && now[a] == after[i];
        let b = choose|b: int| 0 <= b < now.len() && now[b] == after[j];
        assert(after[i] != after[j]);
        assert(key_of(now[a], sel) != key_of(now[b], sel));
    }
    law_settled_needs_no_plan(after, sel);
}

} // verus!
