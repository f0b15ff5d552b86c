//! A whole run of the program: what is to be read or renamed next, and what is
//! replied to each outcome.
//!
//! Reading and renaming is the caller's part. It begins with `first_step`, does
//! what a step asks for, and hands the outcome to the function that the step names,
//! until there is a reply.

use vstd::prelude::*;
use vstd::string::{StrSliceExecFns, StringExecFns};

use crate::cli::{
    check_entries, checks_reply, complains, explain_reply, explains, help_reply, is_selection,
    lines_from, parse, parsed, plan_reply, report_reply, says, split_stdin, usage_error,
    version_reply, Command, Format, Options, Opts, Reply, Task, USAGE,
};
use crate::engine::{
    count_paths, is_tally, path_list_reports, reports_of, scan, scan_paths_with, visit_reports,
    Report, ScanResult, Selection, Stats,
};
use crate::fixname::{moves_of, plan, tree_moves, Move, Rename};
use crate::order::arranged;
use crate::path_laws::{law_budgets_matter_for_lengths, run_alike};
use crate::paths::raws_of;
use crate::report::{is_failure, json_plan, json_report, text_plan, text_report, FailOn};
use crate::rules::CHECK_COUNT;
use crate::selection_laws::{law_plans_depend_on_checks, law_reports_depend_on_checks};
use crate::text::joined_text;
use crate::utf8::{as_text, decode_lossy};
use crate::walker::{visits_of, Walk};
use crate::VERSION;

verus! {

/// What a run works on, and how it reports.
pub struct Job {
    /// The root of the tree, in raw bytes.
    pub path: Vec<u8>,
    /// The root for display.
    pub root: String,
    pub sel: Selection,
    pub format: Format,
    pub fail_on: FailOn,
}

/// What a walk is for.
#[derive(Debug, Clone, Copy, PartialEq, Eq, Structural)]
pub enum Goal {
    Report,
    Plan,
    Apply,
}

/// What is to be done next.
pub enum Step {
    /// Print the reply and exit with its code.
    Done(Reply),
    /// Walk the tree, and go on with `after_walk`.
    Walk(Job, Goal),
    /// Read standard input, and go on with `after_input`.
    Read(Job, bool),
    /// Carry out the renames, and go on with `after_renames`.
    Rename(Job, Vec<Rename>),
}

// ---------------------------------------------------------------------------
// What each step is
// ---------------------------------------------------------------------------
/// Is `job` to work on `path`, shown as `root`, with these options?
pub open spec fn is_job(job: Job, path: Seq<u8>, root: Seq<char>, opts: Options) -> bool {
    &&& job.path@ == path
    &&& job.root@ == root
    &&& is_selection(job.sel, opts)
    &&& job.format == opts.format
    &&& job.fail_on == opts.fail_on
}

/// Is `first` the first step for what the arguments were read as?
pub open spec fn is_first_step(task: Result<Task, Seq<char>>, first: Step) -> bool {
    match task {
        Err(e) => first matches Step::Done(r) && complains(r, e),
        Ok(Task::Help) => first matches Step::Done(r) && says(r, USAGE@),
        Ok(Task::Version) => first matches Step::Done(r) && says(
            r,
            "namefence "@ + VERSION@ + "\n"@,
        ),
        Ok(Task::Checks) => first matches Step::Done(r) && says(
            r,
            check_entries(CHECK_COUNT as int),
        ),
        Ok(Task::Explain { key }) => first matches Step::Done(r) && explains(r, key),
        Ok(Task::Check { path, opts }) => first matches Step::Walk(job, goal) && goal
            == Goal::Report && is_job(job, path, as_text(path), opts),
        Ok(Task::Fix { path, opts, apply }) => first matches Step::Walk(job, goal) && goal == (
        if apply {
            Goal::Apply
        } else {
            Goal::Plan
        }) && is_job(job, path, as_text(path), opts),
        Ok(Task::Stdin { opts, null }) => first matches Step::Read(job, n) && n == null && is_job(
            job,
            seq![],
            "<stdin>"@,
            opts,
        ),
    }
}

/// What there is to report of a tree.
pub open spec fn tree_reports(tree: Walk, sel: Selection) -> Seq<Report> {
    arranged(visit_reports(visits_of(tree.dirs@), sel, tree.dirs@.len() as int))
}

/// The renames planned for a tree.
pub open spec fn tree_plan(tree: Walk, sel: Selection) -> Seq<Move> {
    arranged(tree_moves(visits_of(tree.dirs@), sel, tree.dirs@.len() as int))
}

/// Is `r` the reply with these reports? It fails where the policy says so.
pub open spec fn is_report(
    r: Reply,
    job: Job,
    reports: Seq<Report>,
    files: int,
    dirs: int,
    truncated: bool,
) -> bool {
    &&& forall|stats: Stats| #[trigger]
        is_tally(stats, reports, files, dirs, truncated) ==> r.out@ == match job.format {
            Format::Text => text_report(reports, stats),
            Format::Json => json_report(job.root@, reports, stats),
        }
    &&& r.err@ == Seq::<char>::empty()
    &&& r.code == if is_failure(reports, job.fail_on) {
        1i32
    } else {
        0i32
    }
}

/// Is `r` the reply with this plan? One that is neither empty nor carried out
/// fails.
pub open spec fn is_plan_reply(r: Reply, job: Job, moves: Seq<Move>, applied: bool) -> bool {
    &&& r.out@ == match job.format {
        Format::Text => text_plan(moves, applied),
        Format::Json => json_plan(job.root@, moves, applied),
    }
    &&& r.err@ == Seq::<char>::empty()
    &&& r.code == if !applied && moves.len() > 0 {
        1i32
    } else {
        0i32
    }
}

/// Is `next` the step after a walk?
pub open spec fn is_next_step(
    job: Job,
    goal: Goal,
    tree: Result<Walk, String>,
    next: Step,
) -> bool {
    match tree {
        Err(e) => next matches Step::Done(r) && complains(r, job.root@ + ": "@ + e@),
        Ok(w) => match goal {
            Goal::Report => next matches Step::Done(r) && is_report(
                r,
                job,
                tree_reports(w, job.sel),
                w.files as int,
                w.dir_count as int,
                w.truncated,
            ),
            Goal::Plan => next matches Step::Done(r) && is_plan_reply(
                r,
                job,
                tree_plan(w, job.sel),
                false,
            ),
            Goal::Apply => next matches Step::Rename(j, renames) && j == job && moves_of(renames@)
                == tree_plan(w, job.sel),
        },
    }
}

/// Is `r` the reply to what was read from standard input?
pub open spec fn is_input_reply(
    job: Job,
    null: bool,
    input: Result<Vec<u8>, String>,
    r: Reply,
) -> bool {
    match input {
        Err(e) => complains(r, "reading stdin: "@ + e@),
        Ok(bytes) => is_report(
            r,
            job,
            path_list_reports(lines_from(bytes@, null, 0), job.sel),
            count_paths(lines_from(bytes@, null, 0)) as int,
            0,
            false,
        ),
    }
}

/// Is `r` the reply to carrying out a plan?
pub open spec fn is_rename_reply(
    job: Job,
    moves: Seq<Move>,
    done: Result<(), String>,
    r: Reply,
) -> bool {
    match done {
        Err(e) => complains(r, "applying renames: "@ + e@),
        Ok(_) => is_plan_reply(r, job, moves, true),
    }
}

// ---------------------------------------------------------------------------
// The steps
// ---------------------------------------------------------------------------
fn make_job(path: Vec<u8>, root: String, opts: Opts) -> (r: Job)
    ensures
        is_job(r, path@, root@, opts@),
{
    let sel: Selection = opts.selection();
    Job { path, root, sel, format: opts.format, fail_on: opts.fail_on }
}

/// The first step of a run with these arguments (without the program's name).
pub fn first_step(args: &[Vec<u8>]) -> (r: Step)
    ensures
        is_first_step(
            parsed(raws_of(args@), raws_of(args@).map_values(|a: Seq<u8>| as_text(a))),
            r,
        ),
{
    match parse(args) {
        Err(message) => Step::Done(usage_error(&message)),
        Ok(Command::Help) => Step::Done(help_reply()),
        Ok(Command::Version) => Step::Done(version_reply()),
        Ok(Command::Checks) => Step::Done(checks_reply()),
        Ok(Command::Explain { key }) => Step::Done(explain_reply(&key)),
        Ok(Command::Check { path, opts }) => {
            let root: String = decode_lossy(&path);
            Step::Walk(make_job(path, root, opts), Goal::Report)
        },
        Ok(Command::Fix { path, opts, apply }) => {
            let root: String = decode_lossy(&path);
            let goal: Goal = if apply {
                Goal::Apply
            } else {
                Goal::Plan
            };
            Step::Walk(make_job(path, root, opts), goal)
        },
        Ok(Command::Stdin { opts, null }) => {
            let path: Vec<u8> = Vec::new();
            assert(path@ == Seq::<u8>::empty());
            Step::Read(make_job(path, "<stdin>".to_owned(), opts), null)
        },
    }
}

/// The reply with the result of a scan.
fn reply_with(job: &Job, result: &ScanResult) -> (r: Reply)
    ensures
        forall|files: int, dirs: int, truncated: bool|
            is_tally(result.stats, reports_of(result.findings@), files, dirs, truncated)
                ==> #[trigger] is_report(
                r,
                *job,
                reports_of(result.findings@),
                files,
                dirs,
                truncated,
            ),
{
    let r: Reply = report_reply(&job.root, result, job.format, job.fail_on);
    proof {
        let reports = reports_of(result.findings@);
        assert forall|files: int, dirs: int, truncated: bool|
            is_tally(result.stats, reports, files, dirs, truncated) implies #[trigger] is_report(
            r,
            *job,
            reports,
            files,
            dirs,
            truncated,
        ) by {
            assert forall|stats: Stats| #[trigger]
                is_tally(stats, reports, files, dirs, truncated) implies stats == result.stats by {}
        }
    }
    r
}

/// The step after a walk.
pub fn after_walk(job: Job, goal: Goal, tree: Result<Walk, String>) -> (r: Step)
    requires
        job.sel.is_complete(),
    ensures
        is_next_step(job, goal, tree, r),
{
    match tree {
        Err(e) => Step::Done(usage_error(&joined_text(&job.root, ": ", &e))),
        Ok(w) => match goal {
            Goal::Report => Step::Done(reply_with(&job, &scan(&w, &job.sel))),
            Goal::Plan => {
                let renames: Vec<Rename> = plan(&w, &job.sel);
                Step::Done(plan_reply(&job.root, &renames, job.format, false))
            },
            Goal::Apply => {
                let renames: Vec<Rename> = plan(&w, &job.sel);
                Step::Rename(job, renames)
            },
        },
    }
}

/// The reply to what was read from standard input.
pub fn after_input(job: Job, null: bool, input: Result<Vec<u8>, String>) -> (r: Reply)
    requires
        job.sel.is_complete(),
    ensures
        is_input_reply(job, null, input, r),
{
    match input {
        Err(e) => {
            let mut message: String = "reading stdin: ".to_owned();
            message.append(&e);
            usage_error(&message)
        },
        Ok(bytes) => {
            let paths: Vec<Vec<u8>> = split_stdin(&bytes, null);
            reply_with(&job, &scan_paths_with(&paths, &job.sel))
        },
    }
}

/// The reply to carrying out a plan.
pub fn after_renames(job: Job, renames: Vec<Rename>, done: Result<(), String>) -> (r: Reply)
    ensures
        is_rename_reply(job, moves_of(renames@), done, r),
{
    match done {
        Err(e) => {
            let mut message: String = "applying renames: ".to_owned();
            message.append(&e);
            usage_error(&message)
        },
        Ok(_) => plan_reply(&job.root, &renames, job.format, true),
    }
}

// ---------------------------------------------------------------------------
// Renaming
// ---------------------------------------------------------------------------
/// What is to be done next where renames are carried out.
#[derive(Debug, Clone, Copy, PartialEq, Eq, Structural)]
pub enum RenameStep {
    /// All renames are done.
    Finished,
    /// The target of this rename exists: give up, with `refusal`.
    Refuse(usize),
    /// Carry out this rename; if it fails, give up.
    Move(usize),
}

/// The next step after the first `done` renames, given whether the target of the
/// next one exists. Nothing is overwritten: a tree can change after it was planned
/// for.
pub fn next_rename(renames: &[Rename], done: usize, target_exists: bool) -> (r: RenameStep)
    requires
        done <= renames@.len(),
    ensures
        r == if done == renames@.len() {
            RenameStep::Finished
        } else if target_exists {
            RenameStep::Refuse(done)
        } else {
            RenameStep::Move(done)
        },
{
    if done == renames.len() {
        RenameStep::Finished
    } else if target_exists {
        RenameStep::Refuse(done)
    } else {
        RenameStep::Move(done)
    }
}

/// The complaint that the target of a rename exists.
pub fn refusal(target: &str) -> (r: String)
    ensures
        r@ == "refusing to overwrite existing `"@ + target@
            + "` — tree changed since planning?"@,
{
    joined_text("refusing to overwrite existing `", target, "` — tree changed since planning?")
}

// ---------------------------------------------------------------------------
// Whole runs
// ---------------------------------------------------------------------------
/// Does the step lead to the reply `r`, where the walk, the reading and the renaming
/// that it may ask for have these outcomes?
pub open spec fn leads_to(
    first: Step,
    tree: Result<Walk, String>,
    input: Result<Vec<u8>, String>,
    done: Result<(), String>,
    r: Reply,
) -> bool {
    match first {
        Step::Done(reply) => reply == r,
        Step::Walk(job, goal) => exists|next: Step| #[trigger]
            is_next_step(job, goal, tree, next) && match next {
                Step::Done(reply) => reply == r,
                Step::Rename(j, renames) => is_rename_reply(j, moves_of(renames@), done, r),
                _ => false,
            },
        Step::Read(job, null) => is_input_reply(job, null, input, r),
        Step::Rename(_, _) => false,
    }
}

/// Does a run end in the reply `r`?
pub open spec fn ends_in(
    task: Result<Task, Seq<char>>,
    tree: Result<Walk, String>,
    input: Result<Vec<u8>, String>,
    done: Result<(), String>,
    r: Reply,
) -> bool {
    exists|first: Step| #[trigger]
        is_first_step(task, first) && leads_to(first, tree, input, done, r)
}

/// The exit code of a report: 1 where the policy says that it fails, else 0.
pub open spec fn report_code(reports: Seq<Report>, fail_on: FailOn) -> i32 {
    if is_failure(reports, fail_on) {
        1
    } else {
        0
    }
}

/// The exit code of a check or of a list of paths: 2 where the arguments, the walk
/// or the reading failed; else that of the report.
pub proof fn law_exit_codes_of_checks(
    task: Result<Task, Seq<char>>,
    tree: Result<Walk, String>,
    input: Result<Vec<u8>, String>,
    done: Result<(), String>,
    r: Reply,
)
    requires
        ends_in(task, tree, input, done, r),
    ensures
        task is Err ==> r.code == 2,
        task matches Ok(Task::Check { path, opts }) ==> match tree {
            Err(_) => r.code == 2,
            Ok(w) => forall|sel: Selection| #[trigger]
                is_selection(sel, opts) ==> r.code == report_code(
                    tree_reports(w, sel),
                    opts.fail_on,
                ),
        },
        task matches Ok(Task::Stdin { opts, null }) ==> match input {
            Err(_) => r.code == 2,
            Ok(bytes) => forall|sel: Selection| #[trigger]
                is_selection(sel, opts) ==> r.code == report_code(
                    path_list_reports(lines_from(bytes@, null, 0), sel),
                    opts.fail_on,
                ),
        },
{
    let first = choose|first: Step| #[trigger]
        is_first_step(task, first) && leads_to(first, tree, input, done, r);
    match first {
        Step::Walk(job, goal) => {
            if let (Ok(Task::Check { path, opts }), Ok(w)) = (task, tree) {
                assert forall|sel: Selection| #[trigger] is_selection(sel, opts) implies r.code
                    == report_code(tree_reports(w, sel), opts.fail_on) by {
                    assert(run_alike(job.sel, sel));
                    law_reports_depend_on_checks(
                        visits_of(w.dirs@),
                        job.sel,
                        sel,
                        w.dirs@.len() as int,
                    );
                }
            }
        },
        Step::Read(job, null) => {
            if let (Ok(Task::Stdin { opts, null: n }), Ok(bytes)) = (task, input) {
                let paths = lines_from(bytes@, null, 0);
                assert forall|sel: Selection| #[trigger] is_selection(sel, opts) implies r.code
                    == report_code(path_list_reports(paths, sel), opts.fail_on) by {
                    assert(run_alike(job.sel, sel));
                    law_budgets_matter_for_lengths(paths, job.sel, sel);
                }
            }
        },
        _ => {},
    }
}

/// The exit code of a fix: 2 where the walk or, if it was asked for, the renaming
/// failed; else 1 where a plan was not carried out and is not empty, and 0
/// otherwise.
pub proof fn law_exit_codes_of_fixes(
    path: Seq<u8>,
    opts: Options,
    apply: bool,
    tree: Result<Walk, String>,
    input: Result<Vec<u8>, String>,
    done: Result<(), String>,
    r: Reply,
)
    requires
        ends_in(Ok(Task::Fix { path, opts, apply }), tree, input, done, r),
    ensures
        tree is Err || apply && done is Err ==> r.code == 2,
        tree is Ok && !(apply && done is Err) ==> forall|sel: Selection| #[trigger]
            is_selection(sel, opts) ==> r.code == if !apply && tree_plan(
                tree->Ok_0,
                sel,
            ).len() > 0 {
                1i32
            } else {
                0i32
            },
{
    let task = Ok::<Task, Seq<char>>(Task::Fix { path, opts, apply });
    let first = choose|first: Step| #[trigger]
        is_first_step(task, first) && leads_to(first, tree, input, done, r);
    if let (Step::Walk(job, goal), Ok(w)) = (first, tree) {
        let n = w.dirs@.len() as int;
        assert forall|sel: Selection| #[trigger] is_selection(sel, opts) implies tree_plan(w, sel)
            == tree_plan(w, job.sel) by {
            assert(run_alike(job.sel, sel));
            law_plans_depend_on_checks(visits_of(w.dirs@), job.sel, sel, n);
        }
    }
}

/// Nothing is renamed unless that was asked for: a run comes to renaming only with
/// a fix that is to be applied, and then with its plan.
pub proof fn law_renames_are_asked_for(
    task: Result<Task, Seq<char>>,
    job: Job,
    goal: Goal,
    tree: Result<Walk, String>,
    j: Job,
    renames: Vec<Rename>,
)
    requires
        is_first_step(task, Step::Walk(job, goal)),
        is_next_step(job, goal, tree, Step::Rename(j, renames)),
    ensures
        task matches Ok(Task::Fix { path, opts, apply }) && apply,
        tree is Ok,
        moves_of(renames@) == tree_plan(tree->Ok_0, job.sel),
{
}

/// Renames are taken in order, each once: one whose target exists is refused, any other
/// is carried out, and after the last there is nothing left to do.
pub proof fn law_renames_go_in_order(renames: &[Rename], taken: Seq<bool>, steps: Seq<RenameStep>)
    requires
        renames@.len() <= usize::MAX,
        taken.len() == renames@.len() + 1,
        steps.len() == taken.len(),
        forall|i: int|
            0 <= i < steps.len() ==> call_ensures(
                next_rename,
                (renames, i as usize, taken[i]),
                #[trigger] steps[i],
            ),
    ensures
        forall|i: int|
            0 <= i < renames@.len() && !taken[i] ==> #[trigger] steps[i] == RenameStep::Move(
                i as usize,
            ),
        forall|i: int|
            0 <= i < renames@.len() && taken[i] ==> #[trigger] steps[i] == RenameStep::Refuse(
                i as usize,
            ),
        steps.last() == RenameStep::Finished,
{
}

/// What is refused is told: two refusals are the same only if the targets are.
pub proof fn law_refusals_name_the_target(a: &str, b: &str, r: String)
    requires
        call_ensures(refusal, (a,), r),
        call_ensures(refusal, (b,), r),
    ensures
        a@ == b@,
{
    let head = "refusing to overwrite existing `"@;
    let tail = "` — tree changed since planning?"@;
    assert(a@ == r@.subrange(head.len() as int, r@.len() - tail.len()));
    assert(b@ == r@.subrange(head.len() as int, r@.len() - tail.len()));
}

} // verus!
