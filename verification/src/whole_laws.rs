//! Scans and plans are whole: they hold, one for one, what is to be reported of or
//! planned for each directory, and nothing else.

use vstd::prelude::*;
use vstd::utf8::{decode_utf8, valid_utf8};

use crate::checks::{
    at_most_one, clash_at, clash_note, clashes, component_notes, display, lemma_first_with,
    path_note, Clash, Note,
};
use crate::engine::{
    bound, clash_reports, group_reports, listing_reports, name_reports, names_reports,
    path_list_reports, visit_reports, Report, Selection,
};
use crate::fixname::{dir_moves, names_of, planned, reasons_for, tree_moves, Move};
use crate::order::arranged;
use crate::path_laws::{is_member, law_names_are_checked_once};
use crate::paths::{components, display_path, path_groups, path_spots, spots, Group, Spot};
use crate::plan_laws::lemma_planning;
use crate::rules::row;
use crate::traces::{
    anywhere, is_all_of, lemma_all_of, lemma_all_of_arranged, lemma_trace_concat,
    lemma_trace_rename, lemma_trace_rescope, traces,
};
use crate::unicode::{casefold, utf16_units};
use crate::walker::{path_in, Entry, Visit};

verus! {

// ---------------------------------------------------------------------------
// One listing
// ---------------------------------------------------------------------------
/// Why something is reported of a directory listing.
pub ghost enum Cause {
    /// A check of the name alone has something to say: its note of that number.
    Name { name: int, note: int },
    /// The path of the name is too long.
    Length { name: int },
    /// The name collides with an earlier one.
    Collision { name: int },
}

/// Is the `f`-th name the first of all that share the key of the `i`-th, and
/// before it?
pub open spec fn is_first_twin(names: Seq<Seq<u8>>, i: int, f: int) -> bool {
    &&& 0 <= f < i < names.len()
    &&& valid_utf8(names[i])
    &&& is_twin(names, i, f)
    &&& forall|j: int| 0 <= j < f ==> !#[trigger] is_twin(names, i, j)
}

/// Do the `i`-th and the `j`-th name share their key?
pub open spec fn is_twin(names: Seq<Seq<u8>>, i: int, j: int) -> bool {
    valid_utf8(names[j]) && casefold(decode_utf8(names[j])) == casefold(decode_utf8(names[i]))
}

/// A note on what is at `path`, if its check is selected.
pub open spec fn reported(path: Seq<char>, n: Note, sel: Selection) -> Option<Report> {
    if sel.runs_id(n.check.id) {
        Some(Report { path, check: n.check, message: n.message, fix: n.fix })
    } else {
        None
    }
}

/// What a cause gives to report of the listing `names` of the directory `dir`.
pub open spec fn caused(
    dir: Seq<char>,
    names: Seq<Seq<u8>>,
    sel: Selection,
    cause: Cause,
) -> Option<Report> {
    match cause {
        Cause::Name { name, note } => if 0 <= name < names.len() && 0 <= note < component_notes(
            names[name],
        ).len() {
            reported(path_in(dir, names[name]), component_notes(names[name])[note], sel)
        } else {
            None
        },
        Cause::Length { name } => if 0 <= name < names.len() && utf16_units(dir) <= sel.max_path
            && utf16_units(path_in(dir, names[name])) > sel.max_path {
            reported(
                path_in(dir, names[name]),
                path_note(path_in(dir, names[name]), sel.max_path as nat)->0,
                sel,
            )
        } else {
            None
        },
        Cause::Collision { name } => if exists|f: int| #[trigger] is_first_twin(names, name, f) {
            reported(
                path_in(dir, names[name]),
                clash_note(
                    names[name],
                    names[choose|f: int| #[trigger] is_first_twin(names, name, f)],
                ),
                sel,
            )
        } else {
            None
        },
    }
}

spec fn causes_of(dir: Seq<char>, names: Seq<Seq<u8>>, sel: Selection) -> spec_fn(Cause) -> Option<
    Report,
> {
    |c: Cause| caused(dir, names, sel, c)
}

/// The first `j` notes on the `e`-th name.
spec fn first_notes(e: int, j: int) -> spec_fn(Cause) -> bool {
    |c: Cause| c matches Cause::Name { name, note } && name == e && note < j
}

spec fn one_note(e: int, j: int) -> spec_fn(Cause) -> bool {
    |c: Cause| c == Cause::Name { name: e, note: j }
}

spec fn the_length(e: int) -> spec_fn(Cause) -> bool {
    |c: Cause| c == Cause::Length { name: e }
}

spec fn one_name(e: int) -> spec_fn(Cause) -> bool {
    |c: Cause|
        match c {
            Cause::Name { name, note } => name == e,
            Cause::Length { name } => name == e,
            Cause::Collision { name } => false,
        }
}

/// The first `k` names, each by itself.
spec fn first_names(k: int) -> spec_fn(Cause) -> bool {
    |c: Cause|
        match c {
            Cause::Name { name, note } => name < k,
            Cause::Length { name } => name < k,
            Cause::Collision { name } => false,
        }
}

spec fn one_collision(k: int) -> spec_fn(Cause) -> bool {
    |c: Cause| c == Cause::Collision { name: k }
}

spec fn first_collisions(k: int) -> spec_fn(Cause) -> bool {
    |c: Cause| c matches Cause::Collision { name } && name < k
}

/// A single note that is bound to a path.
proof fn lemma_bound_one(path: Seq<char>, n: Note, sel: Selection)
    ensures
        bound(path, seq![n], sel) == match reported(path, n, sel) {
            Some(r) => seq![r],
            None => seq![],
        },
{
    reveal_with_fuel(bound, 2);
    assert(seq![n].drop_last() == Seq::<Note>::empty());
    assert(seq![n].last() == n);
}

/// At most one report of one cause.
proof fn lemma_trace_one(
    r: Option<Report>,
    c: Cause,
    item: spec_fn(Cause) -> Option<Report>,
    scope: spec_fn(Cause) -> bool,
) -> (o: Seq<Cause>)
    requires
        item(c) == r,
        scope(c),
        forall|d: Cause| scope(d) && (#[trigger] item(d)) is Some ==> d == c,
    ensures
        traces(
            match r {
                Some(x) => seq![x],
                None => seq![],
            },
            o,
            item,
            scope,
        ),
{
    if r is Some {
        let o = seq![c];
        assert forall|d: Cause| scope(d) && #[trigger] item(d) is Some implies o.contains(d) by {
            assert(o[0] == d);
        }
        o
    } else {
        Seq::<Cause>::empty()
    }
}

proof fn lemma_notes_traced(
    dir: Seq<char>,
    names: Seq<Seq<u8>>,
    sel: Selection,
    e: int,
    j: int,
) -> (o: Seq<Cause>)
    requires
        0 <= e < names.len(),
        0 <= j <= component_notes(names[e]).len(),
    ensures
        traces(
            bound(path_in(dir, names[e]), component_notes(names[e]).take(j), sel),
            o,
            causes_of(dir, names, sel),
            first_notes(e, j),
        ),
    decreases j,
{
    let item = causes_of(dir, names, sel);
    let path = path_in(dir, names[e]);
    let notes = component_notes(names[e]);
    let now = bound(path, notes.take(j), sel);
    if j == 0 {
        let o = Seq::<Cause>::empty();
        assert(now == Seq::<Report>::empty());
        assert forall|c: Cause| first_notes(e, j)(c) && #[trigger] item(c) is Some implies false by {
        }
        assert(traces(now, o, item, first_notes(e, j)));
        o
    } else {
        let x = lemma_notes_traced(dir, names, sel, e, j - 1);
        let before = bound(path, notes.take(j - 1), sel);
        let c = Cause::Name { name: e, note: j - 1 };
        let y = lemma_trace_one(
            reported(path, notes[j - 1], sel),
            c,
            item,
            one_note(e, j - 1),
        );
        let last = match reported(path, notes[j - 1], sel) {
            Some(r) => seq![r],
            None => Seq::<Report>::empty(),
        };
        assert(notes.take(j).drop_last() == notes.take(j - 1));
        assert(now == before + last);
        lemma_trace_concat(
            before,
            x,
            first_notes(e, j - 1),
            last,
            y,
            one_note(e, j - 1),
            item,
            first_notes(e, j),
        );
        x + y
    }
}

proof fn lemma_name_traced(dir: Seq<char>, names: Seq<Seq<u8>>, sel: Selection, e: int) -> (o: Seq<
    Cause,
>)
    requires
        0 <= e < names.len(),
    ensures
        traces(
            name_reports(dir, names[e], sel),
            o,
            causes_of(dir, names, sel),
            one_name(e),
        ),
{
    reveal(path_note);
    let item = causes_of(dir, names, sel);
    let path = path_in(dir, names[e]);
    let notes = component_notes(names[e]);
    let n = notes.len() as int;
    let x = lemma_notes_traced(dir, names, sel, e, n);
    assert(notes.take(n) == notes);
    let own = bound(path, notes, sel);
    let note = path_note(path, sel.max_path as nat);
    let length = if utf16_units(dir) <= sel.max_path {
        bound(path, at_most_one(note), sel)
    } else {
        Seq::<Report>::empty()
    };
    let c = Cause::Length { name: e };
    let y = lemma_trace_one(item(c), c, item, the_length(e));
    if note is Some {
        lemma_bound_one(path, note->0, sel);
    }
    assert(length == match item(c) {
        Some(r) => seq![r],
        None => Seq::<Report>::empty(),
    });
    lemma_trace_concat(own, x, first_notes(e, n), length, y, the_length(e), item, one_name(e));
    x + y
}

proof fn lemma_names_traced(
    dir: Seq<char>,
    names: Seq<Seq<u8>>,
    sel: Selection,
    k: int,
) -> (o: Seq<Cause>)
    requires
        0 <= k <= names.len(),
    ensures
        traces(
            names_reports(dir, names, sel, k),
            o,
            causes_of(dir, names, sel),
            first_names(k),
        ),
    decreases k,
{
    let item = causes_of(dir, names, sel);
    if k == 0 {
        let o = Seq::<Cause>::empty();
        assert forall|c: Cause| first_names(k)(c) && #[trigger] item(c) is Some implies false by {}
        assert(traces(names_reports(dir, names, sel, k), o, item, first_names(k)));
        o
    } else {
        let x = lemma_names_traced(dir, names, sel, k - 1);
        let y = lemma_name_traced(dir, names, sel, k - 1);
        lemma_trace_concat(
            names_reports(dir, names, sel, k - 1),
            x,
            first_names(k - 1),
            name_reports(dir, names[k - 1], sel),
            y,
            one_name(k - 1),
            item,
            first_names(k),
        );
        x + y
    }
}

/// The twin that a collision names.
proof fn lemma_twin(names: Seq<Seq<u8>>, i: int)
    requires
        0 <= i < names.len(),
    ensures
        clash_at(names, i) == if exists|f: int| #[trigger] is_first_twin(names, i, f) {
            let f = choose|f: int| #[trigger] is_first_twin(names, i, f);
            seq![Clash { index: i, first_index: f, note: clash_note(names[i], names[f]) }]
        } else {
            seq![]
        },
{
    let key = casefold(decode_utf8(names[i]));
    lemma_first_with(names, key, i);
    let g = crate::checks::first_with(names, key, i);
    if valid_utf8(names[i]) && g >= 0 {
        assert(crate::checks::has_key(names, g, key));
        assert forall|j: int| 0 <= j < g implies !#[trigger] is_twin(names, i, j) by {
            if is_twin(names, i, j) {
                assert(crate::checks::has_key(names, j, key));
            }
        }
        assert(is_first_twin(names, i, g));
        let f = choose|f: int| #[trigger] is_first_twin(names, i, f);
        if f < g {
            assert(is_twin(names, i, f));
        } else if g < f {
            assert(is_twin(names, i, g));
        }
    } else if exists|f: int| #[trigger] is_first_twin(names, i, f) {
        let f = choose|f: int| #[trigger] is_first_twin(names, i, f);
        assert(crate::checks::has_key(names, f, key));
    }
}

/// The collisions among names are found one by one, in the order of the names: for
/// each name that shares its key with an earlier one, that with the first such name.
pub proof fn law_collisions_are_found(names: Seq<Seq<u8>>, k: int)
    requires
        0 <= k <= names.len(),
    ensures
        forall|i: int, f: int|
            0 <= i < k && #[trigger] is_first_twin(names, i, f) ==> clashes(names, k).contains(
                Clash { index: i, first_index: f, note: clash_note(names[i], names[f]) },
            ),
        forall|m: int|
            0 <= m < clashes(names, k).len() ==> {
                let c = #[trigger] clashes(names, k)[m];
                &&& 0 <= c.index < k
                &&& is_first_twin(names, c.index, c.first_index)
                &&& c.note == clash_note(names[c.index], names[c.first_index])
            },
        forall|m: int, n: int|
            0 <= m < n < clashes(names, k).len() ==> (#[trigger] clashes(names, k)[m]).index < (
            #[trigger] clashes(names, k)[n]).index,
    decreases k,
{
    if k > 0 {
        law_collisions_are_found(names, k - 1);
        let a = clashes(names, k - 1);
        let b = clashes(names, k);
        lemma_twin(names, k - 1);
        assert forall|i: int, f: int| 0 <= i < k && #[trigger] is_first_twin(
            names,
            i,
            f,
        ) implies b.contains(
            Clash { index: i, first_index: f, note: clash_note(names[i], names[f]) },
        ) by {
            let c = Clash { index: i, first_index: f, note: clash_note(names[i], names[f]) };
            if i < k - 1 {
                let m = choose|m: int| 0 <= m < a.len() && a[m] == c;
                assert(b[m] == c);
            } else {
                lemma_one_first(names, i, f);
                assert(b[a.len() as int] == c);
            }
        }
        assert forall|m: int| 0 <= m < b.len() implies {
            let c = #[trigger] b[m];
            &&& 0 <= c.index < k
            &&& is_first_twin(names, c.index, c.first_index)
            &&& c.note == clash_note(names[c.index], names[c.first_index])
        } by {
            if m < a.len() {
                assert(b[m] == a[m]);
            }
        }
        assert forall|m: int, n: int| 0 <= m < n < b.len() implies (#[trigger] b[m]).index < (
        #[trigger] b[n]).index by {
            assert(b[m] == a[m]);
            if n < a.len() {
                assert(b[n] == a[n]);
            }
        }
    }
}

proof fn lemma_collisions_traced(
    dir: Seq<char>,
    names: Seq<Seq<u8>>,
    sel: Selection,
    k: int,
) -> (o: Seq<Cause>)
    requires
        0 <= k <= names.len(),
    ensures
        traces(
            clash_reports(dir, names, clashes(names, k), sel),
            o,
            causes_of(dir, names, sel),
            first_collisions(k),
        ),
    decreases k,
{
    let item = causes_of(dir, names, sel);
    let now = clash_reports(dir, names, clashes(names, k), sel);
    if k == 0 {
        let o = Seq::<Cause>::empty();
        assert forall|c: Cause| first_collisions(k)(c) && #[trigger] item(c) is Some implies false by {
        }
        assert(traces(now, o, item, first_collisions(k)));
        o
    } else {
        let x = lemma_collisions_traced(dir, names, sel, k - 1);
        let c = Cause::Collision { name: k - 1 };
        let y = lemma_trace_one(item(c), c, item, one_collision(k - 1));
        let hits = clashes(names, k - 1);
        let hit = clash_at(names, k - 1);
        let before = clash_reports(dir, names, hits, sel);
        lemma_twin(names, k - 1);
        let last = match item(c) {
            Some(r) => seq![r],
            None => Seq::<Report>::empty(),
        };
        assert(now == before + last) by {
            if hit.len() > 0 {
                let all = hits + hit;
                assert(all.drop_last() == hits);
                assert(all.last() == hit[0]);
                lemma_bound_one(path_in(dir, names[k - 1]), hit[0].note, sel);
            } else {
                assert(hits + hit == hits);
                assert(before + last == before);
            }
        }
        lemma_trace_concat(
            before,
            x,
            first_collisions(k - 1),
            last,
            y,
            one_collision(k - 1),
            item,
            first_collisions(k),
        );
        x + y
    }
}

/// What is reported of a directory listing is, one for one, what there is to report:
/// each selected note on each name, the path that is too long where the directory's
/// is not, and each name that shares its key with an earlier one, against the first
/// such name.
pub proof fn law_listings_are_whole(dir: Seq<char>, names: Seq<Seq<u8>>, sel: Selection)
    ensures
        is_all_of(
            listing_reports(dir, names, sel),
            |c: Cause| caused(dir, names, sel, c),
        ),
{
    let item = |c: Cause| caused(dir, names, sel, c);
    assert(item =~= causes_of(dir, names, sel));
    let n = names.len() as int;
    let x = lemma_names_traced(dir, names, sel, n);
    let y = lemma_collisions_traced(dir, names, sel, n);
    lemma_trace_concat(
        names_reports(dir, names, sel, n),
        x,
        first_names(n),
        clash_reports(dir, names, clashes(names, n), sel),
        y,
        first_collisions(n),
        item,
        anywhere::<Cause>(),
    );
    assert(traces(listing_reports(dir, names, sel), x + y, item, anywhere::<Cause>()));
}

// ---------------------------------------------------------------------------
// Listings behind each other
// ---------------------------------------------------------------------------
/// A list of items, and what the causes of the `a`-th part give.
spec fn part_items<T, O>(n: int, item: spec_fn(int, O) -> Option<T>) -> spec_fn((int, O)) -> Option<
    T,
> {
    |p: (int, O)|
        if 0 <= p.0 < n {
            item(p.0, p.1)
        } else {
            None
        }
}

spec fn first_parts<O>(k: int) -> spec_fn((int, O)) -> bool {
    |p: (int, O)| p.0 < k
}

spec fn one_part<O>(k: int) -> spec_fn((int, O)) -> bool {
    |p: (int, O)| p.0 == k
}

/// One more part.
proof fn lemma_part_traced<T, O>(
    n: int,
    item: spec_fn(int, O) -> Option<T>,
    k: int,
    before: Seq<T>,
    x: Seq<(int, O)>,
    part: Seq<T>,
) -> (o: Seq<(int, O)>)
    requires
        0 <= k < n,
        traces(before, x, part_items(n, item), first_parts(k)),
        is_all_of(part, |o: O| item(k, o)),
    ensures
        traces(before + part, o, part_items(n, item), first_parts(k + 1)),
{
    let given = part_items(n, item);
    let mine = |o: O| item(k, o);
    let causes = choose|causes: Seq<O>| #[trigger] traces(part, causes, mine, anywhere::<O>());
    let y = lemma_trace_rename(
        part,
        causes,
        mine,
        anywhere::<O>(),
        |o: O| (k, o),
        |p: (int, O)| p.1,
        given,
        one_part(k),
    );
    lemma_trace_concat(before, x, first_parts(k), part, y, one_part(k), given, first_parts(k + 1));
    x + y
}

proof fn lemma_no_part_traced<T, O>(n: int, item: spec_fn(int, O) -> Option<T>)
    ensures
        traces(
            Seq::<T>::empty(),
            Seq::<(int, O)>::empty(),
            part_items(n, item),
            first_parts(0),
        ),
{
    let given = part_items(n, item);
    assert forall|p: (int, O)| first_parts::<O>(0)(p) && #[trigger] given(p) is Some implies false by {
    }
}

// ---------------------------------------------------------------------------
// Trees
// ---------------------------------------------------------------------------
/// The names of the entries of the `a`-th visited directory.
pub open spec fn visit_names(visits: Seq<Visit>, a: int) -> Seq<Seq<u8>> {
    Seq::new(visits[a].entries.len(), |e: int| visits[a].entries[e].name@)
}

/// What a cause gives to report of the `a`-th visited directory.
pub open spec fn caused_in(
    visits: Seq<Visit>,
    sel: Selection,
    a: int,
    cause: Cause,
) -> Option<Report> {
    if 0 <= a < visits.len() {
        caused(visits[a].place.rel, visit_names(visits, a), sel, cause)
    } else {
        None
    }
}

proof fn lemma_visits_traced(visits: Seq<Visit>, sel: Selection, k: int) -> (o: Seq<(int, Cause)>)
    requires
        0 <= k <= visits.len(),
    ensures
        traces(
            visit_reports(visits, sel, k),
            o,
            part_items(visits.len() as int, |a: int, c: Cause| caused_in(visits, sel, a, c)),
            first_parts(k),
        ),
    decreases k,
{
    let n = visits.len() as int;
    let item = |a: int, c: Cause| caused_in(visits, sel, a, c);
    if k == 0 {
        lemma_no_part_traced(n, item);
        assert(visit_reports(visits, sel, k) == Seq::<Report>::empty());
        Seq::<(int, Cause)>::empty()
    } else {
        let x = lemma_visits_traced(visits, sel, k - 1);
        let v = visits[k - 1];
        let names = visit_names(visits, k - 1);
        assert(names == v.entries.map_values(|e: Entry| e.name@));
        law_listings_are_whole(v.place.rel, names, sel);
        assert((|c: Cause| item(k - 1, c)) =~= (|c: Cause| caused(v.place.rel, names, sel, c)));
        lemma_part_traced(
            n,
            item,
            k - 1,
            visit_reports(visits, sel, k - 1),
            x,
            listing_reports(v.place.rel, names, sel),
        )
    }
}

/// A scan of a tree is whole: its findings are, one for one, what there is to report
/// of each visited directory.
pub proof fn law_scans_are_whole(visits: Seq<Visit>, sel: Selection)
    ensures
        is_all_of(
            arranged(visit_reports(visits, sel, visits.len() as int)),
            |p: (int, Cause)| caused_in(visits, sel, p.0, p.1),
        ),
{
    let n = visits.len() as int;
    let item = |p: (int, Cause)| caused_in(visits, sel, p.0, p.1);
    let given = part_items(n, |a: int, c: Cause| caused_in(visits, sel, a, c));
    let x = lemma_visits_traced(visits, sel, n);
    assert(item =~= given);
    let s = visit_reports(visits, sel, n);
    lemma_trace_rescope(s, x, first_parts(n), item, anywhere::<(int, Cause)>());
    assert(is_all_of(s, item));
    lemma_all_of_arranged(s, item);
}

/// A scan of a tree leaves nothing out: whatever the depth of a directory and the
/// number of its entries, the findings hold each selected note on each name, each
/// collision of a name with the first of its key, and each path that first goes over
/// the budget.
pub proof fn law_scans_leave_nothing_out(visits: Seq<Visit>, sel: Selection)
    ensures
        ({
            let found = arranged(visit_reports(visits, sel, visits.len() as int));
            &&& forall|a: int, e: int, m: int|
                #![trigger component_notes(visits[a].entries[e].name@)[m]]
                0 <= a < visits.len() && 0 <= e < visits[a].entries.len() && 0 <= m
                    < component_notes(visits[a].entries[e].name@).len() && sel.runs_id(
                    component_notes(visits[a].entries[e].name@)[m].check.id,
                ) ==> {
                    let n = component_notes(visits[a].entries[e].name@)[m];
                    found.contains(
                        Report {
                            path: path_in(visits[a].place.rel, visits[a].entries[e].name@),
                            check: n.check,
                            message: n.message,
                            fix: n.fix,
                        },
                    )
                }
            &&& forall|a: int, e: int, f: int|
                #![trigger clash_note(visits[a].entries[e].name@, visits[a].entries[f].name@)]
                0 <= a < visits.len() && is_first_twin(visit_names(visits, a), e, f) && sel.runs_id(
                    clash_note(
                        visits[a].entries[e].name@,
                        visits[a].entries[f].name@,
                    ).check.id,
                ) ==> {
                    let n = clash_note(
                        visits[a].entries[e].name@,
                        visits[a].entries[f].name@,
                    );
                    found.contains(
                        Report {
                            path: path_in(visits[a].place.rel, visits[a].entries[e].name@),
                            check: n.check,
                            message: n.message,
                            fix: n.fix,
                        },
                    )
                }
            &&& forall|a: int, e: int|
                #![trigger path_in(visits[a].place.rel, visits[a].entries[e].name@)]
                0 <= a < visits.len() && 0 <= e < visits[a].entries.len() && sel.runs_id(
                    row(10).id,
                ) && utf16_units(visits[a].place.rel) <= sel.max_path < utf16_units(
                    path_in(visits[a].place.rel, visits[a].entries[e].name@),
                ) ==> exists|m: int|
                    0 <= m < found.len() && (#[trigger] found[m]).check == row(10) && found[m].path
                        == path_in(visits[a].place.rel, visits[a].entries[e].name@)
        }),
{
    reveal(path_note);
    let found = arranged(visit_reports(visits, sel, visits.len() as int));
    let item = |p: (int, Cause)| caused_in(visits, sel, p.0, p.1);
    law_scans_are_whole(visits, sel);
    lemma_all_of(found, item);
    assert forall|a: int, e: int, m: int|
        #![trigger component_notes(visits[a].entries[e].name@)[m]]
        0 <= a < visits.len() && 0 <= e < visits[a].entries.len() && 0 <= m < component_notes(
            visits[a].entries[e].name@,
        ).len() && sel.runs_id(
            component_notes(visits[a].entries[e].name@)[m].check.id,
        ) implies {
        let n = component_notes(visits[a].entries[e].name@)[m];
        found.contains(
            Report {
                path: path_in(visits[a].place.rel, visits[a].entries[e].name@),
                check: n.check,
                message: n.message,
                fix: n.fix,
            },
        )
    } by {
        assert(visit_names(visits, a)[e] == visits[a].entries[e].name@);
        assert(item((a, Cause::Name { name: e, note: m })) is Some);
    }
    assert forall|a: int, e: int, f: int|
        #![trigger clash_note(visits[a].entries[e].name@, visits[a].entries[f].name@)]
        0 <= a < visits.len() && is_first_twin(visit_names(visits, a), e, f) && sel.runs_id(
            clash_note(visits[a].entries[e].name@, visits[a].entries[f].name@).check.id,
        ) implies {
        let n = clash_note(visits[a].entries[e].name@, visits[a].entries[f].name@);
        found.contains(
            Report {
                path: path_in(visits[a].place.rel, visits[a].entries[e].name@),
                check: n.check,
                message: n.message,
                fix: n.fix,
            },
        )
    } by {
        let names = visit_names(visits, a);
        assert(names[e] == visits[a].entries[e].name@ && names[f] == visits[a].entries[f].name@);
        lemma_one_first(names, e, f);
        assert(item((a, Cause::Collision { name: e })) is Some);
    }
    assert forall|a: int, e: int|
        #![trigger path_in(visits[a].place.rel, visits[a].entries[e].name@)]
        0 <= a < visits.len() && 0 <= e < visits[a].entries.len() && sel.runs_id(row(10).id)
            && utf16_units(visits[a].place.rel) <= sel.max_path < utf16_units(
            path_in(visits[a].place.rel, visits[a].entries[e].name@),
        ) implies exists|m: int|
        0 <= m < found.len() && (#[trigger] found[m]).check == row(10) && found[m].path == path_in(
            visits[a].place.rel,
            visits[a].entries[e].name@,
        ) by {
        assert(visit_names(visits, a)[e] == visits[a].entries[e].name@);
        let c = (a, Cause::Length { name: e });
        assert(item(c) is Some);
        let m = choose|m: int| 0 <= m < found.len() && found[m] == item(c)->0;
        assert(found[m].check == row(10));
    }
}

/// There is one first twin.
proof fn lemma_one_first(names: Seq<Seq<u8>>, i: int, f: int)
    requires
        is_first_twin(names, i, f),
    ensures
        forall|g: int| #[trigger] is_first_twin(names, i, g) ==> g == f,
{
    assert forall|g: int| #[trigger] is_first_twin(names, i, g) implies g == f by {
        if g < f {
            assert(is_twin(names, i, g));
        } else if f < g {
            assert(is_twin(names, i, f));
        }
    }
}

// ---------------------------------------------------------------------------
// Lists of paths
// ---------------------------------------------------------------------------
/// What a cause gives to report of the `a`-th group of names.
pub open spec fn caused_by(g: Seq<Group>, sel: Selection, a: int, cause: Cause) -> Option<Report> {
    if 0 <= a < g.len() {
        caused(display_path(g[a].dir), g[a].names, sel, cause)
    } else {
        None
    }
}

proof fn lemma_groups_traced(g: Seq<Group>, sel: Selection, k: int) -> (o: Seq<(int, Cause)>)
    requires
        0 <= k <= g.len(),
    ensures
        traces(
            group_reports(g, sel, k),
            o,
            part_items(g.len() as int, |a: int, c: Cause| caused_by(g, sel, a, c)),
            first_parts(k),
        ),
    decreases k,
{
    let n = g.len() as int;
    let item = |a: int, c: Cause| caused_by(g, sel, a, c);
    if k == 0 {
        lemma_no_part_traced(n, item);
        assert(group_reports(g, sel, k) == Seq::<Report>::empty());
        Seq::<(int, Cause)>::empty()
    } else {
        let x = lemma_groups_traced(g, sel, k - 1);
        let dir = display_path(g[k - 1].dir);
        let names = g[k - 1].names;
        law_listings_are_whole(dir, names, sel);
        assert((|c: Cause| item(k - 1, c)) =~= (|c: Cause| caused(dir, names, sel, c)));
        lemma_part_traced(
            n,
            item,
            k - 1,
            group_reports(g, sel, k - 1),
            x,
            listing_reports(dir, names, sel),
        )
    }
}

/// A scan of a list of paths is whole: its findings are, one for one, what there is
/// to report of each directory that the paths pass through.
pub proof fn law_path_scans_are_whole(paths: Seq<Seq<u8>>, sel: Selection)
    ensures
        is_all_of(
            path_list_reports(paths, sel),
            |p: (int, Cause)| caused_by(path_groups(paths), sel, p.0, p.1),
        ),
{
    let g = path_groups(paths);
    let n = g.len() as int;
    let item = |p: (int, Cause)| caused_by(g, sel, p.0, p.1);
    let given = part_items(n, |a: int, c: Cause| caused_by(g, sel, a, c));
    let x = lemma_groups_traced(g, sel, n);
    assert(item =~= given);
    let s = group_reports(g, sel, n);
    lemma_trace_rescope(s, x, first_parts(n), item, anywhere::<(int, Cause)>());
    assert(is_all_of(s, item));
    lemma_all_of_arranged(s, item);
}

/// Do the components of the path begin with those of the directory and the name?
pub open spec fn leads(path: Seq<u8>, dir: Seq<Seq<u8>>, name: Seq<u8>) -> bool {
    let parts = components(path);
    &&& dir.len() < parts.len()
    &&& parts.take(dir.len() as int) == dir
    &&& parts[dir.len() as int] == name
}

/// Does one of the paths pass through `name` in the directory `dir`?
pub open spec fn passes(paths: Seq<Seq<u8>>, dir: Seq<Seq<u8>>, name: Seq<u8>) -> bool {
    exists|i: int| 0 <= i < paths.len() && leads(#[trigger] paths[i], dir, name)
}

proof fn lemma_leads(path: Seq<u8>, p: Spot)
    ensures
        path_spots(components(path)).contains(p) <==> leads(path, p.dir, p.name),
{
    let parts = components(path);
    let b = path_spots(parts);
    if b.contains(p) {
        let m = choose|m: int| 0 <= m < b.len() && b[m] == p;
        assert(parts.take(m).len() == m);
    }
    if leads(path, p.dir, p.name) {
        assert(b[p.dir.len() as int] == p);
    }
}

proof fn lemma_passes(paths: Seq<Seq<u8>>, k: int, p: Spot)
    requires
        0 <= k <= paths.len(),
    ensures
        spots(paths, k).contains(p) <==> exists|i: int|
            0 <= i < k && leads(#[trigger] paths[i], p.dir, p.name),
    decreases k,
{
    if k > 0 {
        lemma_passes(paths, k - 1, p);
        lemma_leads(paths[k - 1], p);
        let a = spots(paths, k - 1);
        let b = path_spots(components(paths[k - 1]));
        lemma_in_concat(a, b, p);
    }
}

pub proof fn lemma_in_concat<T>(a: Seq<T>, b: Seq<T>, p: T)
    ensures
        (a + b).contains(p) <==> a.contains(p) || b.contains(p),
{
    let s = a + b;
    if s.contains(p) {
        let j = choose|j: int| 0 <= j < s.len() && s[j] == p;
        if j < a.len() {
            assert(a[j] == p);
        } else {
            assert(b[j - a.len()] == p);
        }
    }
    if a.contains(p) {
        let j = choose|j: int| 0 <= j < a.len() && a[j] == p;
        assert(s[j] == p);
    }
    if b.contains(p) {
        let j = choose|j: int| 0 <= j < b.len() && b[j] == p;
        assert(s[a.len() + j] == p);
    }
}

/// The names that are checked are those that the paths pass through: for each
/// directory one group, with each of its names.
pub proof fn law_groups_are_what_paths_pass(paths: Seq<Seq<u8>>, dir: Seq<Seq<u8>>, name: Seq<u8>)
    ensures
        is_member(path_groups(paths), dir, name) <==> passes(paths, dir, name),
{
    let n = paths.len() as int;
    law_names_are_checked_once(paths);
    lemma_passes(paths, n, Spot { dir, name });
}

/// A scan of a list of paths leaves nothing out: the findings hold each selected
/// note on each name that a path passes through, however many directories it is
/// behind, and every finding about a name alone is such a note.
pub proof fn law_path_scans_leave_nothing_out(paths: Seq<Seq<u8>>, sel: Selection)
    ensures
        forall|i: int, k: int, m: int|
            #![trigger component_notes(components(paths[i])[k])[m]]
            0 <= i < paths.len() && 0 <= k < components(paths[i]).len() && 0 <= m
                < component_notes(components(paths[i])[k]).len() && sel.runs_id(
                component_notes(components(paths[i])[k])[m].check.id,
            ) ==> {
                let n = component_notes(components(paths[i])[k])[m];
                path_list_reports(paths, sel).contains(
                    Report {
                        path: display_path(components(paths[i]).take(k + 1)),
                        check: n.check,
                        message: n.message,
                        fix: n.fix,
                    },
                )
            },
{
    let g = path_groups(paths);
    let found = path_list_reports(paths, sel);
    let item = |p: (int, Cause)| caused_by(g, sel, p.0, p.1);
    law_path_scans_are_whole(paths, sel);
    lemma_all_of(found, item);
    assert forall|i: int, k: int, m: int|
        #![trigger component_notes(components(paths[i])[k])[m]]
        0 <= i < paths.len() && 0 <= k < components(paths[i]).len() && 0 <= m < component_notes(
            components(paths[i])[k],
        ).len() && sel.runs_id(component_notes(components(paths[i])[k])[m].check.id) implies {
        let n = component_notes(components(paths[i])[k])[m];
        found.contains(
            Report {
                path: display_path(components(paths[i]).take(k + 1)),
                check: n.check,
                message: n.message,
                fix: n.fix,
            },
        )
    } by {
        let parts = components(paths[i]);
        let dir = parts.take(k);
        assert(dir.len() == k);
        assert(passes(paths, dir, parts[k]));
        law_groups_are_what_paths_pass(paths, dir, parts[k]);
        let (a, b) = choose|a: int, b: int|
            0 <= a < g.len() && 0 <= b < g[a].names.len() && g[a].dir == dir
                && #[trigger] g[a].names[b] == parts[k];
        assert(parts.take(k + 1).drop_last() == dir);
        assert(parts.take(k + 1).last() == parts[k]);
        assert(item((a, Cause::Name { name: b, note: m })) is Some);
    }
}

/// A scan of a list of paths finds each collision: where the paths pass through two
/// different names of one directory that share their key, one of them is reported
/// as colliding.
pub proof fn law_path_scans_find_collisions(
    paths: Seq<Seq<u8>>,
    sel: Selection,
    dir: Seq<Seq<u8>>,
    x: Seq<u8>,
    y: Seq<u8>,
)
    requires
        sel.runs_id(row(5).id),
        sel.runs_id(row(6).id),
        passes(paths, dir, x),
        passes(paths, dir, y),
        x != y,
        valid_utf8(x),
        valid_utf8(y),
        casefold(decode_utf8(x)) == casefold(decode_utf8(y)),
    ensures
        exists|m: int|
            0 <= m < path_list_reports(paths, sel).len() && is_collision_of(
                #[trigger] path_list_reports(paths, sel)[m],
                display_path(dir),
                x,
                y,
            ),
{
    reveal(clash_note);
    let g = path_groups(paths);
    let found = path_list_reports(paths, sel);
    let item = |p: (int, Cause)| caused_by(g, sel, p.0, p.1);
    law_path_scans_are_whole(paths, sel);
    lemma_all_of(found, item);
    law_names_are_checked_once(paths);
    law_groups_are_what_paths_pass(paths, dir, x);
    law_groups_are_what_paths_pass(paths, dir, y);
    let (a, b) = choose|a: int, b: int|
        0 <= a < g.len() && 0 <= b < g[a].names.len() && g[a].dir == dir
            && #[trigger] g[a].names[b] == x;
    let (c, d) = choose|c: int, d: int|
        0 <= c < g.len() && 0 <= d < g[c].names.len() && g[c].dir == dir
            && #[trigger] g[c].names[d] == y;
    assert(a == c) by {
        if a < c {
            assert(g[a].dir != g[c].dir);
        } else if c < a {
            assert(g[c].dir != g[a].dir);
        }
    }
    let names = g[a].names;
    let (lo, hi) = if b < d {
        (b, d)
    } else {
        (d, b)
    };
    assert(is_twin(names, hi, lo));
    let f = lemma_least_twin(names, hi, lo);
    lemma_one_first(names, hi, f);
    let o = (a, Cause::Collision { name: hi });
    assert(item(o) is Some);
    let m = choose|m: int| 0 <= m < found.len() && found[m] == item(o)->0;
    assert(is_collision_of(found[m], display_path(dir), x, y));
}

/// Is `r` a report that one of two names collides?
pub open spec fn is_collision_of(r: Report, dir: Seq<char>, x: Seq<u8>, y: Seq<u8>) -> bool {
    &&& r.check == row(5) || r.check == row(6)
    &&& r.path == path_in(dir, x) || r.path == path_in(dir, y)
}

proof fn lemma_least_twin(names: Seq<Seq<u8>>, i: int, k: int) -> (f: int)
    requires
        0 <= k < i < names.len(),
        valid_utf8(names[i]),
        is_twin(names, i, k),
    ensures
        is_first_twin(names, i, f),
    decreases k,
{
    if exists|j: int| 0 <= j < k && #[trigger] is_twin(names, i, j) {
        let j = choose|j: int| 0 <= j < k && #[trigger] is_twin(names, i, j);
        lemma_least_twin(names, i, j)
    } else {
        k
    }
}

// ---------------------------------------------------------------------------
// Plans
// ---------------------------------------------------------------------------
/// The rename that the `b`-th item of the plan for the `a`-th visited directory is.
pub open spec fn planned_in(visits: Seq<Visit>, sel: Selection, a: int, b: int) -> Option<Move> {
    if 0 <= a < visits.len() && 0 <= b < planned(visit_names(visits, a), sel).len() {
        let (i, to) = planned(visit_names(visits, a), sel)[b];
        let from = visits[a].entries[i].name@;
        Some(
            Move {
                dir: visits[a].place.rel,
                parts: visits[a].place.parts,
                from,
                from_display: display(from),
                to,
                reasons: reasons_for(from, sel),
            },
        )
    } else {
        None
    }
}

proof fn lemma_dir_traced(visits: Seq<Visit>, sel: Selection, a: int, k: int)
    requires
        0 <= a < visits.len(),
        0 <= k <= planned(visit_names(visits, a), sel).len(),
    ensures
        dir_moves(
            visits[a].place,
            visit_names(visits, a),
            planned(visit_names(visits, a), sel),
            sel,
            k,
        ) == Seq::new(k as nat, |b: int| planned_in(visits, sel, a, b)->0),
    decreases k,
{
    let names = visit_names(visits, a);
    let plan = planned(names, sel);
    if k > 0 {
        lemma_dir_traced(visits, sel, a, k - 1);
        lemma_planning(names, sel, names.len() as int);
        let (i, to) = crate::fixname::planning(names, sel, names.len() as int).plan[k - 1];
        assert(names[i] == visits[a].entries[i].name@);
        assert(dir_moves(visits[a].place, names, plan, sel, k) == Seq::new(
            k as nat,
            |b: int| planned_in(visits, sel, a, b)->0,
        ));
    } else {
        assert(dir_moves(visits[a].place, names, plan, sel, k) == Seq::new(
            k as nat,
            |b: int| planned_in(visits, sel, a, b)->0,
        ));
    }
}

proof fn lemma_moves_traced(visits: Seq<Visit>, sel: Selection, k: int) -> (o: Seq<(int, int)>)
    requires
        0 <= k <= visits.len(),
    ensures
        traces(
            tree_moves(visits, sel, k),
            o,
            part_items(visits.len() as int, |a: int, b: int| planned_in(visits, sel, a, b)),
            first_parts(k),
        ),
    decreases k,
{
    let n = visits.len() as int;
    let item = |a: int, b: int| planned_in(visits, sel, a, b);
    if k == 0 {
        lemma_no_part_traced(n, item);
        assert(tree_moves(visits, sel, k) == Seq::<Move>::empty());
        Seq::<(int, int)>::empty()
    } else {
        let x = lemma_moves_traced(visits, sel, k - 1);
        let v = visits[k - 1];
        let names = visit_names(visits, k - 1);
        assert(names == names_of(v.entries));
        let plan = planned(names, sel);
        let m = plan.len() as int;
        lemma_dir_traced(visits, sel, k - 1, m);
        let part = dir_moves(v.place, names, plan, sel, m);
        let causes = Seq::new(plan.len(), |b: int| b);
        let mine = |b: int| item(k - 1, b);
        assert(traces(part, causes, mine, anywhere::<int>())) by {
            assert forall|b: int| anywhere::<int>()(b) && #[trigger] mine(b) is Some implies
                causes.contains(b) by {
                assert(causes[b] == b);
            }
        }
        lemma_part_traced(n, item, k - 1, tree_moves(visits, sel, k - 1), x, part)
    }
}

/// The plan for a tree is whole: it holds, one for one, the renames of the plans for
/// the visited directories, each with the path of the directory and the name of the
/// entry that it is about.
pub proof fn law_plans_are_whole(visits: Seq<Visit>, sel: Selection)
    ensures
        is_all_of(
            arranged(tree_moves(visits, sel, visits.len() as int)),
            |p: (int, int)| planned_in(visits, sel, p.0, p.1),
        ),
{
    let n = visits.len() as int;
    let item = |p: (int, int)| planned_in(visits, sel, p.0, p.1);
    let given = part_items(n, |a: int, b: int| planned_in(visits, sel, a, b));
    let x = lemma_moves_traced(visits, sel, n);
    assert(item =~= given);
    let s = tree_moves(visits, sel, n);
    lemma_trace_rescope(s, x, first_parts(n), item, anywhere::<(int, int)>());
    assert(is_all_of(s, item));
    lemma_all_of_arranged(s, item);
}

} // verus!
