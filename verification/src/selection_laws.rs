//! Which checks a selection runs; what is found and planned depends on these and on
//! the path budget, and on nothing else of it.

use vstd::prelude::*;

use crate::checks::{clashes, component_notes, Note};
use crate::engine::{is_listed, is_selected, is_targeted, visit_reports, Selection};
use crate::fixname::{
    collisions_matter, dir_moves, fixing_ids, is_own, kept_keys, key_of, names_of, planned,
    planning, reasons_for, sanitized, stays, tree_moves,
};
use crate::path_laws::{lemma_clashes_alike, lemma_ids_alike, lemma_names_alike, run_alike};
use crate::rules::{
    law_checks_have_targets, law_ids_are_unique, row, Row, Severity, Target, CHECK_COUNT,
};
use crate::walker::{Entry, Place, Visit};
use crate::whole_laws::lemma_in_concat;

verus! {

/// What is reported of a tree depends on which checks run and on the path budget.
pub proof fn law_reports_depend_on_checks(visits: Seq<Visit>, a: Selection, b: Selection, k: int)
    requires
        run_alike(a, b),
        a.max_path == b.max_path,
    ensures
        visit_reports(visits, a, k) == visit_reports(visits, b, k),
    decreases k,
{
    if k > 0 {
        law_reports_depend_on_checks(visits, a, b, k - 1);
        let v = visits[k - 1];
        let names = v.entries.map_values(|e: Entry| e.name@);
        let n = names.len() as int;
        lemma_names_alike(v.place.rel, names, a, b, n);
        lemma_clashes_alike(v.place.rel, names, clashes(names, n), a, b);
    }
}

proof fn lemma_sanitized_alike(name: Seq<u8>, a: Selection, b: Selection)
    requires
        run_alike(a, b),
    ensures
        sanitized(name, a) == sanitized(name, b),
        is_own(name, a) == is_own(name, b),
        key_of(name, a) == key_of(name, b),
{
    assert(a.runs(0) == b.runs(0) && a.runs(1) == b.runs(1) && a.runs(2) == b.runs(2) && a.runs(3)
        == b.runs(3) && a.runs(4) == b.runs(4) && a.runs(7) == b.runs(7) && a.runs(8) == b.runs(8)
        && a.runs(9) == b.runs(9) && a.runs(12) == b.runs(12));
}

proof fn lemma_stays_alike(names: Seq<Seq<u8>>, a: Selection, b: Selection, i: int)
    requires
        run_alike(a, b),
    ensures
        stays(names, a, i) == stays(names, b, i),
{
    assert(a.runs(5) == b.runs(5) && a.runs(6) == b.runs(6));
    assert(collisions_matter(a) == collisions_matter(b));
    assert forall|j: int|
        #![trigger is_own(names[j], a)]
        #![trigger is_own(names[j], b)]
        is_own(names[j], a) == is_own(names[j], b) && key_of(names[j], a) == key_of(
            names[j],
            b,
        ) by {
        lemma_sanitized_alike(names[j], a, b);
    }
    assert(is_own(names[i], a) == is_own(names[i], b));
    assert(key_of(names[i], a) == key_of(names[i], b)) by {
        lemma_sanitized_alike(names[i], a, b);
    }
    if stays(names, a, i) && collisions_matter(b) {
        assert forall|j: int| 0 <= j < i && #[trigger] is_own(names[j], b) implies key_of(
            names[j],
            b,
        ) != key_of(names[i], b) by {
            assert(is_own(names[j], a));
        }
    }
    if stays(names, b, i) && collisions_matter(a) {
        assert forall|j: int| 0 <= j < i && #[trigger] is_own(names[j], a) implies key_of(
            names[j],
            a,
        ) != key_of(names[i], a) by {
            assert(is_own(names[j], b));
        }
    }
}

proof fn lemma_kept_alike(names: Seq<Seq<u8>>, a: Selection, b: Selection, k: int)
    requires
        run_alike(a, b),
    ensures
        kept_keys(names, a, k) == kept_keys(names, b, k),
    decreases k,
{
    if k > 0 {
        lemma_kept_alike(names, a, b, k - 1);
        lemma_stays_alike(names, a, b, k - 1);
        lemma_sanitized_alike(names[k - 1], a, b);
    }
}

proof fn lemma_planning_alike(names: Seq<Seq<u8>>, a: Selection, b: Selection, k: int)
    requires
        run_alike(a, b),
    ensures
        planning(names, a, k) == planning(names, b, k),
    decreases k,
{
    if k > 0 {
        lemma_planning_alike(names, a, b, k - 1);
        lemma_stays_alike(names, a, b, k - 1);
        lemma_sanitized_alike(names[k - 1], a, b);
    } else {
        lemma_kept_alike(names, a, b, names.len() as int);
    }
}

proof fn lemma_reasons_alike(notes: Seq<Note>, a: Selection, b: Selection)
    requires
        run_alike(a, b),
    ensures
        fixing_ids(notes, a) == fixing_ids(notes, b),
    decreases notes.len(),
{
    if notes.len() > 0 {
        lemma_reasons_alike(notes.drop_last(), a, b);
        lemma_ids_alike(a, b, notes.last().check.id);
    }
}

proof fn lemma_dir_moves_alike(
    place: Place,
    names: Seq<Seq<u8>>,
    plan: Seq<(int, Seq<char>)>,
    a: Selection,
    b: Selection,
    k: int,
)
    requires
        run_alike(a, b),
    ensures
        dir_moves(place, names, plan, a, k) == dir_moves(place, names, plan, b, k),
    decreases k,
{
    if k > 0 {
        lemma_dir_moves_alike(place, names, plan, a, b, k - 1);
        let (i, to) = plan[k - 1];
        lemma_reasons_alike(component_notes(names[i]), a, b);
        assert(reasons_for(names[i], a) == reasons_for(names[i], b));
    }
}

/// What is planned for a tree depends on which checks run.
pub proof fn law_plans_depend_on_checks(visits: Seq<Visit>, a: Selection, b: Selection, k: int)
    requires
        run_alike(a, b),
    ensures
        tree_moves(visits, a, k) == tree_moves(visits, b, k),
    decreases k,
{
    if k > 0 {
        law_plans_depend_on_checks(visits, a, b, k - 1);
        let v = visits[k - 1];
        let names = names_of(v.entries);
        lemma_planning_alike(names, a, b, names.len() as int);
        let plan = planned(names, a);
        assert(plan == planned(names, b));
        lemma_dir_moves_alike(v.place, names, plan, a, b, plan.len() as int);
    }
}

// ---------------------------------------------------------------------------
// What is selected
// ---------------------------------------------------------------------------
proof fn lemma_listed(k: int, a: Seq<Row>, b: Seq<Row>)
    ensures
        is_listed(k, a + b) <==> is_listed(k, a) || is_listed(k, b),
{
    let s = a + b;
    if is_listed(k, a) {
        let i = choose|i: int| 0 <= i < a.len() && (#[trigger] a[i]).id == row(k).id;
        assert(s[i].id == row(k).id);
    }
    if is_listed(k, b) {
        let i = choose|i: int| 0 <= i < b.len() && (#[trigger] b[i]).id == row(k).id;
        assert(s[a.len() + i].id == row(k).id);
    }
    if is_listed(k, s) {
        let i = choose|i: int| 0 <= i < s.len() && (#[trigger] s[i]).id == row(k).id;
        if i < a.len() {
            assert(a[i].id == row(k).id);
        } else {
            assert(b[i - a.len()].id == row(k).id);
        }
    }
}

proof fn lemma_targeted(k: int, a: Seq<Target>, b: Seq<Target>)
    ensures
        is_targeted(k, a + b) <==> is_targeted(k, a) || is_targeted(k, b),
{
    let mine = row(k).targets;
    assert forall|t: Target| #[trigger] (a + b).contains(t) <==> a.contains(t) || b.contains(t) by {
        lemma_in_concat(a, b, t);
    }
    if is_targeted(k, a) {
        let i = choose|i: int| 0 <= i < mine.len() && a.contains(#[trigger] mine[i]);
        assert((a + b).contains(mine[i]));
    }
    if is_targeted(k, b) {
        let i = choose|i: int| 0 <= i < mine.len() && b.contains(#[trigger] mine[i]);
        assert((a + b).contains(mine[i]));
    }
    if is_targeted(k, a + b) {
        let i = choose|i: int| 0 <= i < mine.len() && (a + b).contains(#[trigger] mine[i]);
        assert(a.contains(mine[i]) || b.contains(mine[i]));
    }
}

/// A list names a check if, and only if, one of its items is that check.
pub proof fn law_listed_checks(j: int, k: int)
    requires
        0 <= j < CHECK_COUNT,
        0 <= k < CHECK_COUNT,
    ensures
        is_listed(k, seq![row(j)]) <==> j == k,
        !is_listed(k, seq![]),
{
    if j == k {
        assert(seq![row(j)][0].id == row(k).id);
    }
    if is_listed(k, seq![row(j)]) {
        law_ids_are_unique(j, k);
    }
}

/// Each check that is left out is left out, and no other, whatever else is asked for.
pub proof fn law_skipping_adds_up(
    k: int,
    only: Seq<Row>,
    skip: Seq<Row>,
    more: Seq<Row>,
    targets: Seq<Target>,
)
    ensures
        is_selected(k, only, skip + more, targets) <==> is_selected(k, only, skip, targets)
            && is_selected(k, only, more, targets),
{
    lemma_listed(k, skip, more);
}

/// Each check that is asked for runs, and no other.
pub proof fn law_asking_adds_up(
    k: int,
    only: Seq<Row>,
    more: Seq<Row>,
    skip: Seq<Row>,
    targets: Seq<Target>,
)
    requires
        only.len() > 0,
        more.len() > 0,
    ensures
        is_selected(k, only + more, skip, targets) <==> is_selected(k, only, skip, targets)
            || is_selected(k, more, skip, targets),
{
    lemma_listed(k, only, more);
}

/// The checks of two lists of targets are those of the one and those of the other.
pub proof fn law_targets_add_up(
    k: int,
    only: Seq<Row>,
    skip: Seq<Row>,
    targets: Seq<Target>,
    more: Seq<Target>,
)
    ensures
        is_selected(k, only, skip, targets + more) <==> is_selected(k, only, skip, targets)
            || is_selected(k, only, skip, more),
{
    lemma_targeted(k, targets, more);
}

/// On a single target, and with nothing else asked for, those checks run that have it
/// among their targets; on no target none; and of those asked for or left out one by
/// one, that one.
pub proof fn law_single_selections(j: int, k: int, t: Target)
    requires
        0 <= j < CHECK_COUNT,
        0 <= k < CHECK_COUNT,
    ensures
        is_selected(k, seq![], seq![], seq![t]) <==> row(k).targets.contains(t),
        !is_selected(k, seq![], seq![], seq![]),
        is_selected(k, seq![row(j)], seq![], seq![t]) <==> j == k && row(k).targets.contains(t),
        is_selected(k, seq![], seq![row(j)], seq![t]) <==> j != k && row(k).targets.contains(t),
{
    law_listed_checks(j, k);
    let mine = row(k).targets;
    let one = seq![t];
    assert(one[0] == t);
    if mine.contains(t) {
        let i = choose|i: int| 0 <= i < mine.len() && mine[i] == t;
        assert(one.contains(mine[i]));
    }
    if is_targeted(k, one) {
        let i = choose|i: int| 0 <= i < mine.len() && one.contains(#[trigger] mine[i]);
        assert(mine[i] == t);
    }
}

/// With nothing asked for, nothing left out and every target, every check runs.
pub proof fn law_everything_runs(k: int, targets: Seq<Target>)
    requires
        0 <= k < CHECK_COUNT,
        forall|t: Target| #[trigger] targets.contains(t),
    ensures
        is_selected(k, seq![], seq![], targets),
{
    law_checks_have_targets(k);
    assert(targets.contains(row(k).targets[0]));
}

/// The severity and the targets of each check.
pub proof fn law_catalog(k: int)
    requires
        0 <= k < CHECK_COUNT,
    ensures
        row(k).severity == if k == 4 || k == 7 || k == 8 || k == 10 || k == 11 {
            Severity::Warning
        } else {
            Severity::Error
        },
        row(k).targets.contains(Target::Cloud),
        row(k).targets.contains(Target::Windows) <==> k != 6 && k != 7 && k != 11,
        row(k).targets.contains(Target::Macos) <==> 5 <= k <= 9 || k == 12,
        row(k).targets.contains(Target::Linux) <==> k == 8 || k == 9,
{
    reveal(row);
    let t = row(k).targets;
    assert(t[t.len() - 1] == Target::Cloud);
    assert(k != 6 && k != 7 && k != 11 ==> t[0] == Target::Windows);
    assert(k == 5 || k == 8 || k == 9 || k == 12 ==> t[1] == Target::Macos);
    assert(k == 6 || k == 7 ==> t[0] == Target::Macos);
    assert(k == 8 || k == 9 ==> t[2] == Target::Linux);
}

} // verus!
