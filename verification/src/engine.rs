//! The scan engine: from directory listings or a list of paths to one flat,
//! ordered list of findings, under a selection of checks.

use vstd::prelude::*;
use vstd::string::StringExecFns;

use crate::checks::{
    at_most_one, bytes_of, check_component, check_path_length, check_siblings, clashes, clashes_of,
    component_notes, notes_of, path_note, text_of, Clash, CollisionFinding, NameFinding, Note,
};
use crate::order::{
    arranged, carries_order, codes, is_text_leq, lemma_arranged_map, lemma_lex_total,
    lemma_lex_transitive, lemma_text_antisymmetric, sort, text_leq, Ranked, Sortable,
};
use crate::path_laws::{law_budgets_matter_for_lengths, run_alike};
use crate::paths::{
    display_path, group_paths, groups_of, path_groups, raws_of, show_path, slices, Bucket, Group,
};
use crate::rules::{catalog, law_ids_are_unique, row, Check, Row, Severity, Target, CHECK_COUNT};
use crate::scan_laws::runs_all;
use crate::text::same_text;
use crate::traces::is_all_of;
use crate::unicode::{utf16_len, utf16_units};
use crate::walker::{join_rel, path_in, visits_of, Dir, Entry, Visit, Walk};
use crate::whole_laws::{caused_by, caused_in, law_path_scans_are_whole, law_scans_are_whole, Cause};

verus! {

// ---------------------------------------------------------------------------
// Selection
// ---------------------------------------------------------------------------
/// The default budget of a relative path, in UTF-16 units.
pub const DEFAULT_MAX_PATH: usize = 240;

/// The default number of entries after which a walk stops.
pub const DEFAULT_MAX_FILES: usize = 200000;

/// Which checks run, and the numeric budgets.
pub struct Selection {
    /// Whether the check in the entry of that number runs.
    pub enabled: Vec<bool>,
    pub max_path: usize,
    pub max_files: usize,
}

/// Is one of `targets` among the targets of the `k`-th check?
pub open spec fn is_targeted(k: int, targets: Seq<Target>) -> bool {
    exists|i: int| 0 <= i < row(k).targets.len() && targets.contains(#[trigger] row(k).targets[i])
}

/// Is the `k`-th check one of `checks`?
pub open spec fn is_listed(k: int, checks: Seq<Row>) -> bool {
    exists|i: int| 0 <= i < checks.len() && (#[trigger] checks[i]).id == row(k).id
}

/// The entries in a list of checks.
pub open spec fn rows_of(v: Seq<&'static Check>) -> Seq<Row> {
    v.map_values(|c: &'static Check| c@)
}

/// Does the `k`-th check run where only `only` (if any) and not `skip` are asked
/// for, on `targets`?
pub open spec fn is_selected(
    k: int,
    only: Seq<Row>,
    skip: Seq<Row>,
    targets: Seq<Target>,
) -> bool {
    &&& is_targeted(k, targets)
    &&& only.len() == 0 || is_listed(k, only)
    &&& !is_listed(k, skip)
}

fn has_target(targets: &[Target], t: Target) -> (r: bool)
    ensures
        r == targets@.contains(t),
{
    let mut i: usize = 0;
    while i < targets.len()
        invariant
            i <= targets@.len(),
            forall|j: int| 0 <= j < i ==> #[trigger] targets@[j] != t,
        decreases targets@.len() - i,
    {
        if targets[i] == t {
            return true;
        }
        i = i + 1;
    }
    false
}

fn has_common_target(mine: &[Target], targets: &[Target]) -> (r: bool)
    ensures
        r == exists|i: int| 0 <= i < mine@.len() && targets@.contains(#[trigger] mine@[i]),
{
    let mut i: usize = 0;
    while i < mine.len()
        invariant
            i <= mine@.len(),
            forall|j: int| 0 <= j < i ==> !targets@.contains(#[trigger] mine@[j]),
        decreases mine@.len() - i,
    {
        if has_target(targets, mine[i]) {
            return true;
        }
        i = i + 1;
    }
    false
}

fn has_id(checks: &[&'static Check], id: &str) -> (r: bool)
    ensures
        r == exists|i: int| 0 <= i < checks@.len() && (#[trigger] rows_of(checks@)[i]).id == id@,
{
    let mut i: usize = 0;
    while i < checks.len()
        invariant
            i <= checks@.len(),
            forall|j: int| 0 <= j < i ==> (#[trigger] rows_of(checks@)[j]).id != id@,
        decreases checks@.len() - i,
    {
        assert(rows_of(checks@)[i as int].id == checks@[i as int].id@);
        if same_text(checks[i].id, id) {
            return true;
        }
        i = i + 1;
    }
    false
}

impl Selection {
    /// Does the selection say of each check whether it runs?
    pub open spec fn is_complete(self) -> bool {
        self.enabled@.len() >= CHECK_COUNT
    }

    /// Does the `k`-th check run?
    pub open spec fn runs(self, k: int) -> bool {
        self.enabled@[k]
    }

    /// Does the check with that ID run?
    pub open spec fn runs_id(self, id: Seq<char>) -> bool {
        exists|k: int| 0 <= k < CHECK_COUNT && #[trigger] row(k).id == id && self.runs(k)
    }

    /// Everything on, default budgets.
    pub fn all() -> (r: Selection)
        ensures
            r.enabled@ == Seq::new(CHECK_COUNT as nat, |k: int| true),
            r.max_path == DEFAULT_MAX_PATH,
            r.max_files == DEFAULT_MAX_FILES,
    {
        let mut enabled: Vec<bool> = Vec::new();
        while enabled.len() < CHECK_COUNT
            invariant
                enabled@.len() <= CHECK_COUNT,
                forall|k: int| 0 <= k < enabled@.len() ==> #[trigger] enabled@[k],
            decreases CHECK_COUNT - enabled@.len(),
        {
            enabled.push(true);
        }
        Selection { enabled, max_path: DEFAULT_MAX_PATH, max_files: DEFAULT_MAX_FILES }
    }

    /// The checks on some of `targets`: only those in `only`, if it names any, and
    /// none of those in `skip`. Default budgets.
    pub fn build(only: &[&'static Check], skip: &[&'static Check], targets: &[Target]) -> (r:
        Selection)
        ensures
            r.enabled@ == Seq::new(
                CHECK_COUNT as nat,
                |k: int| is_selected(k, rows_of(only@), rows_of(skip@), targets@),
            ),
            r.max_path == DEFAULT_MAX_PATH,
            r.max_files == DEFAULT_MAX_FILES,
    {
        let all: &'static [Check] = catalog();
        let mut enabled: Vec<bool> = Vec::new();
        while enabled.len() < CHECK_COUNT
            invariant
                all@.len() == CHECK_COUNT,
                forall|k: int| 0 <= k < CHECK_COUNT ==> (#[trigger] all@[k])@ == row(k),
                enabled@.len() <= CHECK_COUNT,
                forall|k: int|
                    0 <= k < enabled@.len() ==> #[trigger] enabled@[k] == is_selected(
                        k,
                        rows_of(only@),
                        rows_of(skip@),
                        targets@,
                    ),
            decreases CHECK_COUNT - enabled@.len(),
        {
            let check: &'static Check = &all[enabled.len()];
            assert(check@ == row(enabled@.len() as int));
            let ghost k = enabled@.len() as int;
            assert(check.targets@ == row(k).targets && check.id@ == row(k).id);
            let on: bool = has_common_target(check.targets, targets) && (only.len() == 0 || has_id(
                only,
                check.id,
            )) && !has_id(skip, check.id);
            assert(on == is_selected(k, rows_of(only@), rows_of(skip@), targets@));
            enabled.push(on);
        }
        Selection { enabled, max_path: DEFAULT_MAX_PATH, max_files: DEFAULT_MAX_FILES }
    }

    /// Does a check run? One that is not in the catalog does not.
    pub fn is_enabled(&self, check: &Check) -> (r: bool)
        requires
            self.is_complete(),
        ensures
            r == self.runs_id(check.id@),
    {
        let all: &'static [Check] = catalog();
        let mut k: usize = 0;
        while k < CHECK_COUNT
            invariant
                self.is_complete(),
                all@.len() == CHECK_COUNT,
                forall|j: int| 0 <= j < CHECK_COUNT ==> (#[trigger] all@[j])@ == row(j),
                k <= CHECK_COUNT,
                forall|j: int| 0 <= j < k ==> #[trigger] row(j).id != check.id@,
            decreases CHECK_COUNT - k,
        {
            assert(all@[k as int]@ == row(k as int));
            if same_text(all[k].id, check.id) {
                proof {
                    assert(row(k as int).id == check.id@);
                    if self.runs_id(check.id@) {
                        let j = choose|j: int|
                            0 <= j < CHECK_COUNT && #[trigger] row(j).id == check.id@ && self.runs(
                                j,
                            );
                        law_ids_are_unique(j, k as int);
                    }
                }
                return self.enabled[k];
            }
            k = k + 1;
        }
        false
    }
}

// ---------------------------------------------------------------------------
// Findings with paths
// ---------------------------------------------------------------------------
/// A finding bound to a path.
pub struct Finding {
    /// The path relative to the root, for display.
    pub path: String,
    pub check: &'static Check,
    pub message: String,
    pub fix: Option<String>,
}

/// What a finding says.
pub ghost struct Report {
    pub path: Seq<char>,
    pub check: Row,
    pub message: Seq<char>,
    pub fix: Option<Seq<char>>,
}

impl View for Finding {
    type V = Report;

    open spec fn view(&self) -> Report {
        Report {
            path: self.path@,
            check: self.check@,
            message: self.message@,
            fix: text_of(self.fix),
        }
    }
}

/// What findings say.
pub open spec fn reports_of(v: Seq<Finding>) -> Seq<Report> {
    v.map_values(|f: Finding| f@)
}

impl Ranked for Report {
    /// By path, and for one path by ID.
    open spec fn leq(self, other: Report) -> bool {
        if self.path == other.path {
            text_leq(self.check.id, other.check.id)
        } else {
            text_leq(self.path, other.path)
        }
    }

    proof fn lemma_total(a: Report, b: Report) {
        lemma_lex_total(codes(a.path), codes(b.path));
        lemma_lex_total(codes(a.check.id), codes(b.check.id));
    }

    proof fn lemma_transitive(a: Report, b: Report, c: Report) {
        if a.path == b.path && b.path == c.path {
            lemma_lex_transitive(codes(a.check.id), codes(b.check.id), codes(c.check.id));
        } else if a.path != b.path && b.path != c.path {
            lemma_lex_transitive(codes(a.path), codes(b.path), codes(c.path));
            if a.path == c.path {
                lemma_text_antisymmetric(a.path, b.path);
            }
        }
    }
}

impl Ranked for Finding {
    open spec fn leq(self, other: Finding) -> bool {
        self@.leq(other@)
    }

    proof fn lemma_total(a: Finding, b: Finding) {
        Report::lemma_total(a@, b@);
    }

    proof fn lemma_transitive(a: Finding, b: Finding, c: Finding) {
        Report::lemma_transitive(a@, b@, c@);
    }
}

impl Sortable for Finding {
    fn is_leq(&self, other: &Finding) -> (r: bool) {
        if same_text(&self.path, &other.path) {
            is_text_leq(self.check.id, other.check.id)
        } else {
            is_text_leq(&self.path, &other.path)
        }
    }
}

/// Sorts findings by path, and for one path by ID.
fn sort_findings(findings: Vec<Finding>) -> (r: Vec<Finding>)
    ensures
        reports_of(r@) == arranged(reports_of(findings@)),
{
    let ghost f = |x: Finding| x@;
    proof {
        assert(carries_order(f));
        lemma_arranged_map(findings@, f);
    }
    sort(findings)
}

/// The numbers that a scan gives.
pub struct Stats {
    pub files: usize,
    pub dirs: usize,
    pub errors: usize,
    pub warnings: usize,
    pub infos: usize,
    pub truncated: bool,
}

/// The result of a scan.
pub struct ScanResult {
    pub findings: Vec<Finding>,
    pub stats: Stats,
}

/// How many of `reports` have that severity.
pub open spec fn count_severity(reports: Seq<Report>, severity: Severity) -> nat
    decreases reports.len(),
{
    if reports.len() == 0 {
        0
    } else {
        count_severity(reports.drop_last(), severity) + if reports.last().check.severity
            == severity {
            1nat
        } else {
            0nat
        }
    }
}

/// Do the numbers count what was scanned and what was found?
pub open spec fn is_tally(
    stats: Stats,
    reports: Seq<Report>,
    files: int,
    dirs: int,
    truncated: bool,
) -> bool {
    &&& stats.files == files
    &&& stats.dirs == dirs
    &&& stats.errors == count_severity(reports, Severity::Error)
    &&& stats.warnings == count_severity(reports, Severity::Warning)
    &&& stats.infos == count_severity(reports, Severity::Info)
    &&& stats.truncated == truncated
}

/// Counts findings by severity.
fn tally(findings: &[Finding], files: usize, dirs: usize, truncated: bool) -> (r: Stats)
    ensures
        is_tally(r, reports_of(findings@), files as int, dirs as int, truncated),
{
    let mut stats = Stats { files, dirs, errors: 0, warnings: 0, infos: 0, truncated };
    let ghost reports = reports_of(findings@);
    let mut i: usize = 0;
    while i < findings.len()
        invariant
            i <= findings@.len(),
            reports == reports_of(findings@),
            is_tally(stats, reports.take(i as int), files as int, dirs as int, truncated),
            stats.errors + stats.warnings + stats.infos == i,
        decreases findings@.len() - i,
    {
        assert(reports.take(i + 1).drop_last() == reports.take(i as int));
        assert(reports.take(i + 1).last() == findings@[i as int]@);
        match findings[i].check.severity {
            Severity::Error => {
                stats.errors = stats.errors + 1;
            },
            Severity::Warning => {
                stats.warnings = stats.warnings + 1;
            },
            Severity::Info => {
                stats.infos = stats.infos + 1;
            },
        }
        i = i + 1;
    }
    assert(reports.take(reports.len() as int) == reports);
    stats
}

// ---------------------------------------------------------------------------
// One directory listing
// ---------------------------------------------------------------------------
/// The selected ones of `notes`, bound to `path`.
pub open spec fn bound(path: Seq<char>, notes: Seq<Note>, sel: Selection) -> Seq<Report>
    decreases notes.len(),
{
    if notes.len() == 0 {
        seq![]
    } else {
        let before = bound(path, notes.drop_last(), sel);
        let n = notes.last();
        if sel.runs_id(n.check.id) {
            before.push(Report { path, check: n.check, message: n.message, fix: n.fix })
        } else {
            before
        }
    }
}

/// What there is to report of one name in a directory: what its own checks say,
/// and, unless the directory itself is over the budget, the length of its path.
pub open spec fn name_reports(dir: Seq<char>, name: Seq<u8>, sel: Selection) -> Seq<Report> {
    let path = path_in(dir, name);
    bound(path, component_notes(name), sel) + if utf16_units(dir) <= sel.max_path {
        bound(path, at_most_one(path_note(path, sel.max_path as nat)), sel)
    } else {
        seq![]
    }
}

/// What there is to report of the first `k` names in a directory, each by itself.
pub open spec fn names_reports(
    dir: Seq<char>,
    names: Seq<Seq<u8>>,
    sel: Selection,
    k: int,
) -> Seq<Report>
    decreases k,
{
    if k <= 0 {
        seq![]
    } else {
        names_reports(dir, names, sel, k - 1) + name_reports(dir, names[k - 1], sel)
    }
}

/// What there is to report of collisions.
pub open spec fn clash_reports(
    dir: Seq<char>,
    names: Seq<Seq<u8>>,
    hits: Seq<Clash>,
    sel: Selection,
) -> Seq<Report>
    decreases hits.len(),
{
    if hits.len() == 0 {
        seq![]
    } else {
        let h = hits.last();
        clash_reports(dir, names, hits.drop_last(), sel) + bound(
            path_in(dir, names[h.index]),
            seq![h.note],
            sel,
        )
    }
}

/// What there is to report of a directory listing.
pub open spec fn listing_reports(dir: Seq<char>, names: Seq<Seq<u8>>, sel: Selection) -> Seq<
    Report,
> {
    names_reports(dir, names, sel, names.len() as int) + clash_reports(
        dir,
        names,
        clashes(names, names.len() as int),
        sel,
    )
}

/// Appends a finding, if its check is selected.
fn push_bound(out: &mut Vec<Finding>, path: &str, f: NameFinding, sel: &Selection)
    requires
        sel.is_complete(),
    ensures
        reports_of(final(out)@) == reports_of(old(out)@) + bound(path@, seq![f@], *sel),
{
    proof {
        assert(seq![f@].drop_last() == Seq::<Note>::empty());
        reveal_with_fuel(bound, 2);
    }
    if sel.is_enabled(f.check) {
        out.push(
            Finding { path: path.to_owned(), check: f.check, message: f.message, fix: f.fix },
        );
        assert(reports_of(out@) == reports_of(old(out)@).push(out@.last()@));
    }
    assert(reports_of(out@) == reports_of(old(out)@) + bound(path@, seq![f@], *sel));
}

proof fn lemma_bound_push(path: Seq<char>, notes: Seq<Note>, n: Note, sel: Selection)
    ensures
        bound(path, notes.push(n), sel) == bound(path, notes, sel) + bound(path, seq![n], sel),
{
    assert(notes.push(n).drop_last() == notes);
    assert(seq![n].drop_last() == Seq::<Note>::empty());
    reveal_with_fuel(bound, 2);
    assert(bound(path, notes.push(n), sel) == bound(path, notes, sel) + bound(path, seq![n], sel));
}

/// Appends the selected ones of findings about one name.
fn push_all_bound(out: &mut Vec<Finding>, path: &str, found: Vec<NameFinding>, sel: &Selection)
    requires
        sel.is_complete(),
    ensures
        reports_of(final(out)@) == reports_of(old(out)@) + bound(path@, notes_of(found@), *sel),
{
    let ghost notes = notes_of(found@);
    let ghost base = reports_of(out@);
    assert(reports_of(out@) == base + bound(path@, notes.take(0), *sel));
    for f in it: found
        invariant
            sel.is_complete(),
            it.seq() == found@,
            notes == notes_of(found@),
            reports_of(out@) == base + bound(path@, notes.take(it.index()), *sel),
    {
        let ghost k = it.index();
        assert(f@ == notes[k]);
        push_bound(out, path, f, sel);
        proof {
            assert(notes.take(k + 1) == notes.take(k).push(notes[k]));
            lemma_bound_push(path@, notes.take(k), notes[k], *sel);
            assert(base + bound(path@, notes.take(k), *sel) + bound(path@, seq![notes[k]], *sel)
                == base + (bound(path@, notes.take(k), *sel) + bound(
                path@,
                seq![notes[k]],
                *sel,
            )));
        }
    }
    assert(notes.take(notes.len() as int) == notes);
}

/// Checks each name of a directory listing by itself.
fn check_names(dir: &str, names: &[&[u8]], sel: &Selection, out: &mut Vec<Finding>)
    requires
        sel.is_complete(),
    ensures
        reports_of(final(out)@) == reports_of(old(out)@) + names_reports(
            dir@,
            bytes_of(names@),
            *sel,
            names@.len() as int,
        ),
{
    let ghost all = bytes_of(names@);
    let ghost base = reports_of(out@);
    let mut i: usize = 0;
    assert(base == base + names_reports(dir@, all, *sel, 0));
    while i < names.len()
        invariant
            i <= names@.len(),
            sel.is_complete(),
            all == bytes_of(names@),
            base == reports_of(old(out)@),
            reports_of(out@) == base + names_reports(dir@, all, *sel, i as int),
        decreases names@.len() - i,
    {
        assert(all[i as int] == names@[i as int]@);
        let ghost before = names_reports(dir@, all, *sel, i as int);
        let ghost now = name_reports(dir@, all[i as int], *sel);
        check_name(dir, names[i], sel, out);
        assert(base + before + now == base + (before + now));
        i = i + 1;
    }
}

/// Checks one name of a directory listing by itself.
fn check_name(dir: &str, name: &[u8], sel: &Selection, out: &mut Vec<Finding>)
    requires
        sel.is_complete(),
    ensures
        reports_of(final(out)@) == reports_of(old(out)@) + name_reports(dir@, name@, *sel),
{
    let path: String = join_rel(dir, name);
    let ghost first = reports_of(out@);
    push_all_bound(out, &path, check_component(name), sel);
    let ghost second = bound(path@, component_notes(name@), *sel);
    if utf16_len(dir) <= sel.max_path {
        let ghost third = bound(path@, at_most_one(path_note(path@, sel.max_path as nat)), *sel);
        if let Some(f) = check_path_length(&path, sel.max_path) {
            push_bound(out, &path, f, sel);
        } else {
            assert(third == Seq::<Report>::empty());
        }
        assert(reports_of(out@) == first + second + third);
        assert(first + second + third == first + (second + third));
    } else {
        assert(first + second == first + (second + Seq::<Report>::empty()));
    }
}

/// Checks the names of a directory listing for collisions.
fn check_collisions(dir: &str, names: &[&[u8]], sel: &Selection, out: &mut Vec<Finding>)
    requires
        sel.is_complete(),
    ensures
        reports_of(final(out)@) == reports_of(old(out)@) + clash_reports(
            dir@,
            bytes_of(names@),
            clashes(bytes_of(names@), names@.len() as int),
            *sel,
        ),
{
    let ghost all = bytes_of(names@);
    let ghost base = reports_of(out@);
    let hits: Vec<CollisionFinding> = check_siblings(names);
    let ghost found = clashes_of(hits@);
    proof {
        lemma_clash_indices(all, all.len() as int);
        assert(base + clash_reports(dir@, all, found.take(0), *sel) == base);
    }
    for hit in it: hits
        invariant
            sel.is_complete(),
            it.seq() == hits@,
            all == bytes_of(names@),
            base == reports_of(old(out)@),
            found == clashes_of(hits@),
            forall|k: int| 0 <= k < found.len() ==> 0 <= (#[trigger] found[k]).index < all.len(),
            reports_of(out@) == base + clash_reports(dir@, all, found.take(it.index()), *sel),
    {
        let ghost k = it.index();
        let ghost h = found[k];
        assert(hit@ == h);
        assert(all[h.index] == names@[h.index]@);
        let path: String = join_rel(dir, names[hit.index]);
        push_bound(out, &path, hit.finding, sel);
        proof {
            let before = clash_reports(dir@, all, found.take(k), *sel);
            let now = bound(path@, seq![h.note], *sel);
            assert(found.take(k + 1).drop_last() == found.take(k));
            assert(found.take(k + 1).last() == h);
            assert(base + before + now == base + (before + now));
        }
    }
    assert(found.take(found.len() as int) == found);
}

/// Checks every entry of one directory listing: each name by itself, the length
/// of its path, and collisions among siblings. `dir` is the display path of the
/// directory.
fn check_listing(dir: &str, names: &[&[u8]], sel: &Selection, out: &mut Vec<Finding>)
    requires
        sel.is_complete(),
    ensures
        reports_of(final(out)@) == reports_of(old(out)@) + listing_reports(
            dir@,
            bytes_of(names@),
            *sel,
        ),
{
    let ghost all = bytes_of(names@);
    let ghost base = reports_of(out@);
    check_names(dir, names, sel, out);
    check_collisions(dir, names, sel, out);
    let ghost first = names_reports(dir@, all, *sel, all.len() as int);
    let ghost second = clash_reports(dir@, all, clashes(all, all.len() as int), *sel);
    assert(base + first + second == base + (first + second));
}

/// A collision is about one of the names.
pub proof fn lemma_clash_indices(names: Seq<Seq<u8>>, k: int)
    ensures
        forall|i: int|
            0 <= i < clashes(names, k).len() ==> 0 <= (#[trigger] clashes(names, k)[i]).index < k,
    decreases k,
{
    if k > 0 {
        lemma_clash_indices(names, k - 1);
    }
}

// ---------------------------------------------------------------------------
// Scanning a tree
// ---------------------------------------------------------------------------
/// What there is to report of the first `k` visited directories.
pub open spec fn visit_reports(visits: Seq<Visit>, sel: Selection, k: int) -> Seq<Report>
    decreases k,
{
    if k <= 0 {
        seq![]
    } else {
        let v = visits[k - 1];
        visit_reports(visits, sel, k - 1) + listing_reports(
            v.place.rel,
            v.entries.map_values(|e: Entry| e.name@),
            sel,
        )
    }
}

/// The names of entries.
fn entry_names<'a>(entries: &'a Vec<Entry>) -> (r: Vec<&'a [u8]>)
    ensures
        bytes_of(r@) == entries@.map_values(|e: Entry| e.name@),
{
    let mut out: Vec<&'a [u8]> = Vec::new();
    let mut i: usize = 0;
    while i < entries.len()
        invariant
            i <= entries@.len(),
            out@.len() == i,
            forall|j: int| 0 <= j < i ==> (#[trigger] out@[j])@ == entries@[j].name@,
        decreases entries@.len() - i,
    {
        out.push(entries[i].name.as_slice());
        i = i + 1;
    }
    assert(bytes_of(out@) == entries@.map_values(|e: Entry| e.name@));
    out
}

/// Scans a directory tree that has been walked: all findings, by path and ID.
pub fn scan(walk: &Walk, sel: &Selection) -> (r: ScanResult)
    requires
        sel.is_complete(),
    ensures
        reports_of(r.findings@) == arranged(
            visit_reports(visits_of(walk.dirs@), *sel, walk.dirs@.len() as int),
        ),
        is_all_of(
            reports_of(r.findings@),
            |p: (int, Cause)| caused_in(visits_of(walk.dirs@), *sel, p.0, p.1),
        ),
        is_tally(
            r.stats,
            reports_of(r.findings@),
            walk.files as int,
            walk.dir_count as int,
            walk.truncated,
        ),
{
    let ghost visits = visits_of(walk.dirs@);
    let mut findings: Vec<Finding> = Vec::new();
    let mut i: usize = 0;
    assert(reports_of(findings@) == visit_reports(visits, *sel, 0));
    while i < walk.dirs.len()
        invariant
            i <= walk.dirs@.len(),
            sel.is_complete(),
            visits == visits_of(walk.dirs@),
            reports_of(findings@) == visit_reports(visits, *sel, i as int),
        decreases walk.dirs@.len() - i,
    {
        let dir: &Dir = &walk.dirs[i];
        assert(visits[i as int].place.rel == dir.rel@);
        assert(visits[i as int].entries == dir.entries@);
        let names: Vec<&[u8]> = entry_names(&dir.entries);
        check_listing(&dir.rel, &names, sel, &mut findings);
        i = i + 1;
    }
    proof {
        law_scans_are_whole(visits, *sel);
    }
    let findings: Vec<Finding> = sort_findings(findings);
    let stats: Stats = tally(&findings, walk.files, walk.dir_count, walk.truncated);
    ScanResult { findings, stats }
}

// ---------------------------------------------------------------------------
// Scanning a list of paths
// ---------------------------------------------------------------------------
/// What there is to report of the first `k` directories.
pub open spec fn group_reports(g: Seq<Group>, sel: Selection, k: int) -> Seq<Report>
    decreases k,
{
    if k <= 0 {
        seq![]
    } else {
        group_reports(g, sel, k - 1) + listing_reports(
            display_path(g[k - 1].dir),
            g[k - 1].names,
            sel,
        )
    }
}

/// How many of `paths` are not empty.
pub open spec fn count_paths(paths: Seq<Seq<u8>>) -> nat
    decreases paths.len(),
{
    if paths.len() == 0 {
        0
    } else {
        count_paths(paths.drop_last()) + if paths.last().len() > 0 {
            1nat
        } else {
            0nat
        }
    }
}

/// What there is to report of a list of paths, in order.
pub open spec fn path_list_reports(paths: Seq<Seq<u8>>, sel: Selection) -> Seq<Report> {
    let g = path_groups(paths);
    arranged(group_reports(g, sel, g.len() as int))
}

fn count_nonempty(paths: &[Vec<u8>]) -> (r: usize)
    ensures
        r == count_paths(raws_of(paths@)),
{
    let ghost raws = raws_of(paths@);
    let mut count: usize = 0;
    let mut i: usize = 0;
    while i < paths.len()
        invariant
            i <= paths@.len(),
            raws == raws_of(paths@),
            count <= i,
            count == count_paths(raws.take(i as int)),
        decreases paths@.len() - i,
    {
        assert(raws.take(i + 1).drop_last() == raws.take(i as int));
        assert(raws.take(i + 1).last() == paths@[i as int]@);
        if paths[i].len() > 0 {
            count = count + 1;
        }
        i = i + 1;
    }
    assert(raws.take(raws.len() as int) == raws);
    count
}

/// Checks a list of relative paths (such as the output of `git ls-files -z`)
/// without touching a filesystem, under a selection. Every distinct component is
/// checked once, and components are grouped by parent directory, so that
/// collisions are found across the list.
pub fn scan_paths_with(paths: &[Vec<u8>], sel: &Selection) -> (r: ScanResult)
    requires
        sel.is_complete(),
    ensures
        reports_of(r.findings@) == path_list_reports(raws_of(paths@), *sel),
        is_all_of(
            reports_of(r.findings@),
            |p: (int, Cause)| caused_by(path_groups(raws_of(paths@)), *sel, p.0, p.1),
        ),
        is_tally(r.stats, reports_of(r.findings@), count_paths(raws_of(paths@)) as int, 0, false),
{
    let buckets: Vec<Bucket> = group_paths(paths);
    let ghost g = path_groups(raws_of(paths@));
    let mut findings: Vec<Finding> = Vec::new();
    let mut k: usize = 0;
    assert(reports_of(findings@) == group_reports(g, *sel, 0));
    while k < buckets.len()
        invariant
            k <= buckets@.len(),
            sel.is_complete(),
            groups_of(buckets@) == g,
            reports_of(findings@) == group_reports(g, *sel, k as int),
        decreases buckets@.len() - k,
    {
        assert(g[k as int] == buckets@[k as int]@);
        let names: Vec<&[u8]> = slices(&buckets[k].names);
        check_listing(&show_path(&buckets[k].dir), &names, sel, &mut findings);
        k = k + 1;
    }
    assert(buckets@.len() == g.len());
    proof {
        law_path_scans_are_whole(raws_of(paths@), *sel);
    }
    let findings: Vec<Finding> = sort_findings(findings);
    let stats: Stats = tally(&findings, count_nonempty(paths), 0, false);
    ScanResult { findings, stats }
}

/// Checks a list of relative paths with every check and the default budgets.
pub fn scan_paths(paths: &[Vec<u8>]) -> (r: ScanResult)
    ensures
        forall|sel: Selection|
            runs_all(sel) && sel.max_path == DEFAULT_MAX_PATH ==> reports_of(r.findings@)
                == #[trigger] path_list_reports(raws_of(paths@), sel),
        is_tally(r.stats, reports_of(r.findings@), count_paths(raws_of(paths@)) as int, 0, false),
{
    let all: Selection = Selection::all();
    proof {
        assert forall|sel: Selection|
            runs_all(sel) && sel.max_path == DEFAULT_MAX_PATH implies path_list_reports(
            raws_of(paths@),
            all,
        ) == #[trigger] path_list_reports(raws_of(paths@), sel) by {
            assert(run_alike(all, sel));
            law_budgets_matter_for_lengths(raws_of(paths@), all, sel);
        }
    }
    scan_paths_with(paths, &all)
}

} // verus!
