//! What a run prints in JSON reads back, whatever it found or planned.

use vstd::prelude::*;
use vstd::utf8::{decode_utf8, valid_utf8};

use crate::checks::{clash_note, component_notes, invalid_note, path_note, text_notes, Note};
use crate::cli::{
    check_entry, named_check, target_labels, USAGE, is_selection, lines_from, Format, Options,
    Reply, Task,
};
use crate::engine::{
    count_paths, is_tally, path_list_reports, visit_reports, Report, Selection, Stats,
};
use crate::path_laws::{law_budgets_matter_for_lengths, run_alike};
use crate::run::{ends_in, is_first_step, leads_to, tree_plan, tree_reports, Step};
use crate::selection_laws::{law_plans_depend_on_checks, law_reports_depend_on_checks};
use crate::utf8::as_text;
use crate::fixname::{fixing_ids, reasons_for, tree_moves};
use crate::json::{document, is_plain};
use crate::json_laws::{
    has_plain_check, has_plain_reasons, law_catalog_is_plain, law_plans_read_back,
    law_reports_read_back, plan_value, report_value,
};
use crate::note_laws::lemma_note_of_check;
use crate::order::arranged;
use crate::reply_laws::{law_failing, strictness};
use crate::report::{joined, json_plan, json_report, text_plan, text_report};
use crate::text_laws::law_checks_are_listed;
use crate::VERSION;
use crate::rules::{row, Row, CHECK_COUNT};
use crate::traces::{is_given, lemma_all_of};
use crate::walker::{visits_of, Visit, Walk};
use crate::whole_laws::{
    caused, caused_by, caused_in, law_path_scans_are_whole, law_plans_are_whole,
    law_scans_are_whole, planned_in, Cause,
};

verus! {

/// Is the entry one of the catalog?
pub open spec fn is_in_catalog(check: Row) -> bool {
    exists|k: int| 0 <= k < CHECK_COUNT && check == #[trigger] row(k)
}

/// A note on a name is of a check in the catalog.
pub proof fn law_notes_are_in_catalog(bytes: Seq<u8>, m: int)
    requires
        0 <= m < component_notes(bytes).len(),
    ensures
        is_in_catalog(component_notes(bytes)[m].check),
{
    reveal(component_notes);
    let x = component_notes(bytes)[m];
    if valid_utf8(bytes) {
        assert(text_notes(decode_utf8(bytes)).contains(x));
        let k = lemma_note_of_check(decode_utf8(bytes), x);
        assert(x.check == row(k));
    } else {
        assert(x == invalid_note(bytes));
        assert(x.check == row(12));
    }
}

proof fn lemma_caused(dir: Seq<char>, names: Seq<Seq<u8>>, sel: Selection, c: Cause)
    requires
        caused(dir, names, sel, c) is Some,
    ensures
        is_in_catalog((caused(dir, names, sel, c)->0).check),
{
    match c {
        Cause::Name { name, note } => {
            law_notes_are_in_catalog(names[name], note);
        },
        Cause::Length { name } => {
            reveal(path_note);
            assert((caused(dir, names, sel, c)->0).check == row(10));
        },
        Cause::Collision { name } => {
            reveal(clash_note);
            let k: int = if (caused(dir, names, sel, c)->0).check == row(6) {
                6
            } else {
                5
            };
            assert((caused(dir, names, sel, c)->0).check == row(k));
        },
    }
}

proof fn lemma_plain_check(f: Report)
    requires
        is_in_catalog(f.check),
    ensures
        has_plain_check(f),
{
    let k = choose|k: int| 0 <= k < CHECK_COUNT && f.check == #[trigger] row(k);
    law_catalog_is_plain(k);
}

/// The report of a scan of a tree, in JSON, reads back with all that was found.
pub proof fn law_scans_read_back(
    root: Seq<char>,
    visits: Seq<Visit>,
    sel: Selection,
    stats: Stats,
)
    ensures
        ({
            let found = arranged(visit_reports(visits, sel, visits.len() as int));
            document(json_report(root, found, stats)) == Some(report_value(root, found, stats))
        }),
{
    let found = arranged(visit_reports(visits, sel, visits.len() as int));
    let item = |p: (int, Cause)| caused_in(visits, sel, p.0, p.1);
    law_scans_are_whole(visits, sel);
    lemma_all_of(found, item);
    assert forall|i: int| 0 <= i < found.len() implies has_plain_check(#[trigger] found[i]) by {
        assert(is_given(found[i], item));
        let p = choose|p: (int, Cause)| #[trigger] item(p) == Some(found[i]);
        lemma_caused(visits[p.0].place.rel, crate::whole_laws::visit_names(visits, p.0), sel, p.1);
        lemma_plain_check(found[i]);
    }
    law_reports_read_back(root, found, stats);
}

/// The report of a scan of a list of paths, in JSON, reads back with all that was
/// found.
pub proof fn law_path_scans_read_back(
    root: Seq<char>,
    paths: Seq<Seq<u8>>,
    sel: Selection,
    stats: Stats,
)
    ensures
        ({
            let found = path_list_reports(paths, sel);
            document(json_report(root, found, stats)) == Some(report_value(root, found, stats))
        }),
{
    let found = path_list_reports(paths, sel);
    let g = crate::paths::path_groups(paths);
    let item = |p: (int, Cause)| caused_by(g, sel, p.0, p.1);
    law_path_scans_are_whole(paths, sel);
    lemma_all_of(found, item);
    assert forall|i: int| 0 <= i < found.len() implies has_plain_check(#[trigger] found[i]) by {
        assert(is_given(found[i], item));
        let p = choose|p: (int, Cause)| #[trigger] item(p) == Some(found[i]);
        lemma_caused(crate::paths::display_path(g[p.0].dir), g[p.0].names, sel, p.1);
        lemma_plain_check(found[i]);
    }
    law_reports_read_back(root, found, stats);
}

proof fn lemma_fixing_ids(notes: Seq<Note>, sel: Selection)
    requires
        forall|m: int| 0 <= m < notes.len() ==> is_in_catalog((#[trigger] notes[m]).check),
    ensures
        forall|i: int|
            0 <= i < fixing_ids(notes, sel).len() ==> is_plain(#[trigger] fixing_ids(notes, sel)[i]),
    decreases notes.len(),
{
    if notes.len() > 0 {
        let u = notes.drop_last();
        assert forall|m: int| 0 <= m < u.len() implies is_in_catalog((#[trigger] u[m]).check) by {
            assert(u[m] == notes[m]);
        }
        lemma_fixing_ids(u, sel);
        let n = notes[notes.len() - 1];
        assert(is_in_catalog(n.check));
        let k = choose|k: int| 0 <= k < CHECK_COUNT && n.check == #[trigger] row(k);
        law_catalog_is_plain(k);
        let ids = fixing_ids(notes, sel);
        assert forall|i: int| 0 <= i < ids.len() implies is_plain(#[trigger] ids[i]) by {
            if i < fixing_ids(u, sel).len() {
                assert(ids[i] == fixing_ids(u, sel)[i]);
            } else {
                assert(ids[i] == n.check.id);
            }
        }
    }
}

proof fn lemma_reasons(name: Seq<u8>, sel: Selection)
    ensures
        forall|i: int|
            0 <= i < reasons_for(name, sel).len() ==> is_plain(#[trigger] reasons_for(name, sel)[i]),
{
    let notes = component_notes(name);
    assert forall|m: int| 0 <= m < notes.len() implies is_in_catalog((#[trigger] notes[m]).check) by {
        law_notes_are_in_catalog(name, m);
    }
    lemma_fixing_ids(notes, sel);
    reveal_strlit("NF006/NF007");
}

/// The plan for a tree, in JSON, reads back with all its renames.
pub proof fn law_tree_plans_read_back(
    root: Seq<char>,
    visits: Seq<Visit>,
    sel: Selection,
    applied: bool,
)
    ensures
        ({
            let moves = arranged(tree_moves(visits, sel, visits.len() as int));
            document(json_plan(root, moves, applied)) == Some(plan_value(root, moves, applied))
        }),
{
    let moves = arranged(tree_moves(visits, sel, visits.len() as int));
    let item = |p: (int, int)| planned_in(visits, sel, p.0, p.1);
    law_plans_are_whole(visits, sel);
    lemma_all_of(moves, item);
    assert forall|i: int| 0 <= i < moves.len() implies has_plain_reasons(#[trigger] moves[i]) by {
        assert(is_given(moves[i], item));
        let p = choose|p: (int, int)| #[trigger] item(p) == Some(moves[i]);
        lemma_reasons(moves[i].from, sel);
    }
    law_plans_read_back(root, moves, applied);
}

// ---------------------------------------------------------------------------
// Whole runs
// ---------------------------------------------------------------------------
/// What `check` prints is the report on the whole tree, as text or as JSON that reads
/// back; it exits with 1 if something is as bad as the policy says, else with 0.
pub proof fn law_checks_print_reports(
    path: Seq<u8>,
    opts: Options,
    tree: Walk,
    input: Result<Vec<u8>, String>,
    done: Result<(), String>,
    r: Reply,
    sel: Selection,
    stats: Stats,
)
    requires
        ends_in(Ok(Task::Check { path, opts }), Ok(tree), input, done, r),
        is_selection(sel, opts),
        is_tally(
            stats,
            tree_reports(tree, sel),
            tree.files as int,
            tree.dir_count as int,
            tree.truncated,
        ),
    ensures
        opts.format == Format::Json ==> document(r.out@) == Some(
            report_value(as_text(path), tree_reports(tree, sel), stats),
        ),
        opts.format == Format::Text ==> r.out@ == text_report(tree_reports(tree, sel), stats),
        r.err@.len() == 0,
        r.code == if exists|i: int|
            0 <= i < tree_reports(tree, sel).len() && (#[trigger] tree_reports(tree, sel)[i]).check.severity.level() >= strictness(
                opts.fail_on,
            ) {
            1i32
        } else {
            0i32
        },
{
    let task = Ok::<Task, Seq<char>>(Task::Check { path, opts });
    let first = choose|first: Step| #[trigger]
        is_first_step(task, first) && leads_to(first, Ok(tree), input, done, r);
    if let Step::Walk(job, goal) = first {
        let visits = visits_of(tree.dirs@);
        assert(run_alike(job.sel, sel));
        law_reports_depend_on_checks(visits, job.sel, sel, visits.len() as int);
        assert(tree_reports(tree, job.sel) == tree_reports(tree, sel));
        law_scans_read_back(as_text(path), visits, sel, stats);
        law_failing(tree_reports(tree, sel), opts.fail_on);
    }
}

/// What `stdin` prints is the report on all paths that were read, as text or as JSON
/// that reads back; it exits as `check` does.
pub proof fn law_lists_print_reports(
    opts: Options,
    null: bool,
    tree: Result<Walk, String>,
    bytes: Vec<u8>,
    done: Result<(), String>,
    r: Reply,
    sel: Selection,
    stats: Stats,
)
    requires
        ends_in(Ok(Task::Stdin { opts, null }), tree, Ok(bytes), done, r),
        is_selection(sel, opts),
        is_tally(
            stats,
            path_list_reports(lines_from(bytes@, null, 0), sel),
            count_paths(lines_from(bytes@, null, 0)) as int,
            0,
            false,
        ),
    ensures
        opts.format == Format::Json ==> document(r.out@) == Some(
            report_value(
                "<stdin>"@,
                path_list_reports(lines_from(bytes@, null, 0), sel),
                stats,
            ),
        ),
        opts.format == Format::Text ==> r.out@ == text_report(
            path_list_reports(lines_from(bytes@, null, 0), sel),
            stats,
        ),
        r.err@.len() == 0,
        r.code == if exists|i: int|
            0 <= i < path_list_reports(lines_from(bytes@, null, 0), sel).len() && (
            #[trigger] path_list_reports(
                lines_from(bytes@, null, 0),
                sel,
            )[i]).check.severity.level() >= strictness(opts.fail_on) {
            1i32
        } else {
            0i32
        },
{
    let task = Ok::<Task, Seq<char>>(Task::Stdin { opts, null });
    let first = choose|first: Step| #[trigger]
        is_first_step(task, first) && leads_to(first, tree, Ok(bytes), done, r);
    if let Step::Read(job, n) = first {
        let paths = lines_from(bytes@, null, 0);
        assert(run_alike(job.sel, sel));
        law_budgets_matter_for_lengths(paths, job.sel, sel);
        law_path_scans_read_back("<stdin>"@, paths, sel, stats);
        law_failing(path_list_reports(paths, sel), opts.fail_on);
    }
}

/// What `fix` prints is the plan for the whole tree and whether it was carried out, as
/// text or as JSON that reads back; it exits with 1 if there are renames that are only
/// planned, else with 0.
pub proof fn law_fixes_print_plans(
    path: Seq<u8>,
    opts: Options,
    apply: bool,
    tree: Walk,
    input: Result<Vec<u8>, String>,
    done: Result<(), String>,
    r: Reply,
    sel: Selection,
)
    requires
        ends_in(Ok(Task::Fix { path, opts, apply }), Ok(tree), input, done, r),
        is_selection(sel, opts),
        !(apply && done is Err),
    ensures
        opts.format == Format::Json ==> document(r.out@) == Some(
            plan_value(as_text(path), tree_plan(tree, sel), apply),
        ),
        opts.format == Format::Text ==> r.out@ == text_plan(tree_plan(tree, sel), apply),
        r.err@.len() == 0,
        apply ==> r.code == 0,
        !apply ==> r.code == if tree_plan(tree, sel).len() == 0 {
            0i32
        } else {
            1i32
        },
{
    let task = Ok::<Task, Seq<char>>(Task::Fix { path, opts, apply });
    let first = choose|first: Step| #[trigger]
        is_first_step(task, first) && leads_to(first, Ok(tree), input, done, r);
    if let Step::Walk(job, goal) = first {
        let visits = visits_of(tree.dirs@);
        assert(run_alike(job.sel, sel));
        law_plans_depend_on_checks(visits, job.sel, sel, visits.len() as int);
        assert(tree_plan(tree, job.sel) == tree_plan(tree, sel));
        law_tree_plans_read_back(as_text(path), visits, sel, apply);
    }
}

/// A run that fails for its arguments, its walk, its reading or its renaming prints
/// nothing but the complaint, with the program's name before it, and exits with 2.
pub proof fn law_failures_are_told(
    task: Result<Task, Seq<char>>,
    tree: Result<Walk, String>,
    input: Result<Vec<u8>, String>,
    done: Result<(), String>,
    r: Reply,
)
    requires
        ends_in(task, tree, input, done, r),
    ensures
        ({
            let told = |message: Seq<char>|
                r.out@.len() == 0 && r.err@ == "namefence: "@ + message + "\n"@ && r.code == 2;
            &&& task matches Err(e) ==> told(e)
            &&& task matches Ok(Task::Check { path, opts }) ==> tree matches Err(e) ==> told(
                as_text(path) + ": "@ + e@,
            )
            &&& task matches Ok(Task::Fix { path, opts, apply }) ==> tree matches Err(e) ==> told(
                as_text(path) + ": "@ + e@,
            )
            &&& task matches Ok(Task::Fix { path, opts, apply }) ==> apply && tree is Ok ==> (done
                matches Err(e) ==> told("applying renames: "@ + e@))
            &&& task matches Ok(Task::Stdin { opts, null }) ==> input matches Err(e) ==> told(
                "reading stdin: "@ + e@,
            )
        }),
{
    let first = choose|first: Step| #[trigger]
        is_first_step(task, first) && leads_to(first, tree, input, done, r);
}

/// The help, the version and the catalog are printed with exit code 0; a check is
/// explained if there is one of that name, else complained about.
pub proof fn law_texts_are_printed(
    task: Result<Task, Seq<char>>,
    tree: Result<Walk, String>,
    input: Result<Vec<u8>, String>,
    done: Result<(), String>,
    r: Reply,
)
    requires
        ends_in(task, tree, input, done, r),
    ensures
        task == Ok::<Task, Seq<char>>(Task::Help) ==> r.out@ == USAGE@ && r.err@.len() == 0
            && r.code == 0,
        task == Ok::<Task, Seq<char>>(Task::Version) ==> r.out@ == "namefence "@ + VERSION@ + "\n"@
            && r.err@.len() == 0 && r.code == 0,
        task == Ok::<Task, Seq<char>>(Task::Checks) ==> r.out@ == Seq::new(
            CHECK_COUNT as nat,
            |i: int| i,
        ).map_values(|i: int| check_entry(row(i))).flatten() && r.err@.len() == 0 && r.code == 0,
        task matches Ok(Task::Explain { key }) ==> match named_check(key) {
            Some(c) => r.out@ == c.id + " ("@ + c.name + ") — severity "@ + c.severity.label()
                + " — breaks on: "@ + joined(target_labels(c.targets), ", "@) + "\n\n"@ + c.explain
                + "\n"@ && r.err@.len() == 0 && r.code == 0,
            None => r.out@.len() == 0 && r.err@ == "namefence: "@ + ("unknown check `"@ + key
                + "` (see `namefence checks`)"@) + "\n"@ && r.code == 2,
        },
{
    let first = choose|first: Step| #[trigger]
        is_first_step(task, first) && leads_to(first, tree, input, done, r);
    law_checks_are_listed(CHECK_COUNT as int);
}

} // verus!
