//! Which findings make a run fail, how findings and renames are printed, which
//! directories are visited, and what the values of a run say.

use vstd::prelude::*;

use crate::engine::{reports_of, Finding, Report};
use crate::paths::raws_of;
use crate::fixname::{moves_of, Move, Rename};
use crate::json::lemma_assoc;
use crate::report::{finding_line, joined, is_failure, move_line, FailOn};
use crate::rules::Severity;
use crate::walker::{children, path_in, Entry, Place, visits_of, Dir};

verus! {

// ---------------------------------------------------------------------------
// Failing
// ---------------------------------------------------------------------------
/// The number of a policy in the order from the strictest to the laxest.
pub open spec fn strictness(f: FailOn) -> int {
    match f {
        FailOn::Info => 0,
        FailOn::Warning => 1,
        FailOn::Error => 2,
        FailOn::Never => 3,
    }
}

/// A run fails if, and only if, something is found that is at least as bad as the
/// policy says.
pub proof fn law_failing(reports: Seq<Report>, f: FailOn)
    ensures
        is_failure(reports, f) <==> exists|i: int|
            0 <= i < reports.len() && (#[trigger] reports[i]).check.severity.level() >= strictness(
                f,
            ),
{
    if is_failure(reports, f) {
        let i = choose|i: int|
            0 <= i < reports.len() && f.is_met((#[trigger] reports[i]).check.severity);
        assert(reports[i].check.severity.level() >= strictness(f));
    }
    if exists|i: int|
        0 <= i < reports.len() && (#[trigger] reports[i]).check.severity.level() >= strictness(f) {
        let i = choose|i: int|
            0 <= i < reports.len() && (#[trigger] reports[i]).check.severity.level() >= strictness(
                f,
            );
        assert(f.is_met(reports[i].check.severity));
    }
}

/// Information is not as bad as a warning, and that not as bad as an error.
pub proof fn law_severities_are_ordered()
    ensures
        0 <= Severity::Info.level() < Severity::Warning.level() < Severity::Error.level() <= 2,
{
}

// ---------------------------------------------------------------------------
// Lines of text
// ---------------------------------------------------------------------------
/// A finding is printed with its path in front and its message behind; what stands
/// between is the same for all findings of one check; and a fix goes on a line of its
/// own.
pub proof fn law_findings_name_path_and_message(f: Report, g: Report)
    requires
        f.check == g.check,
        f.fix is None,
        g.fix is None,
    ensures
        exists|tag: Seq<char>| #[trigger]
            is_tagged(f, tag) && is_tagged(g, tag),
{
    let c = f.check;
    let tag = ": "@ + (c.severity.label() + (" "@ + (c.id + (" ("@ + (c.name + "): "@)))));
    lemma_assoc();
    assert(is_tagged(f, tag));
    assert(is_tagged(g, tag));
}

/// Is `f` printed as its path, the tag and its message?
pub open spec fn is_tagged(f: Report, tag: Seq<char>) -> bool {
    finding_line(f) == f.path + (tag + f.message)
}

/// A finding with a fix is printed as without, and the fix on the next line.
pub proof fn law_fixes_are_printed(f: Report, fix: Seq<char>)
    requires
        f.fix is None,
    ensures
        finding_line(Report { fix: Some(fix), ..f }) == finding_line(f)
            + "\n    fix: rename to `"@ + fix + "`"@,
{
}

/// A rename is printed with a verb that says whether it was made, the path of the name
/// in its directory, the new name and the reasons with commas between.
pub proof fn law_renames_are_told(m: Move)
    ensures
        ({
            let path = if m.dir.len() == 0 {
                m.from_display
            } else {
                m.dir + seq!['/'] + m.from_display
            };
            let rest = " `"@ + path + "` -> `"@ + m.to + "`  ("@ + joined(m.reasons, ", "@)
                + ")\n"@;
            &&& move_line(m, true) == "renamed"@ + rest
            &&& move_line(m, false) == "would rename"@ + rest
        }),
{
    lemma_assoc();
    reveal_strlit("/");
    assert("/"@ == seq!['/']);
}

/// Joined texts split where one ends: the separator stands between, and nowhere else.
pub proof fn law_joined_splits(a: Seq<Seq<char>>, b: Seq<Seq<char>>, separator: Seq<char>)
    requires
        a.len() > 0,
        b.len() > 0,
    ensures
        joined(a + b, separator) == joined(a, separator) + separator + joined(b, separator),
        a.len() == 1 ==> joined(a, separator) == a[0],
        joined(Seq::<Seq<char>>::empty(), separator) == Seq::<char>::empty(),
    decreases b.len(),
{
    lemma_assoc();
    let s = a + b;
    assert(s.last() == b.last());
    if b.len() == 1 {
        assert(s.drop_last() == a);
        assert(joined(b, separator) == b[0]);
    } else {
        assert(s.drop_last() == a + b.drop_last());
        law_joined_splits(a, b.drop_last(), separator);
    }
}

// ---------------------------------------------------------------------------
// Subdirectories
// ---------------------------------------------------------------------------
/// Every directory in a listing is visited, but for those called `.git`, in order.
pub proof fn law_children_are_visited(place: Place, entries: Seq<Entry>)
    ensures
        children(place, entries) == entries.filter(
            |e: Entry| e.is_dir && e.name@ != seq![0x2Eu8, 0x67u8, 0x69u8, 0x74u8],
        ).map_values(
            |e: Entry|
                Place { rel: path_in(place.rel, e.name@), parts: place.parts.push(e.name@) },
        ),
    decreases entries.len(),
{
    reveal(Seq::filter);
    let f = |e: Entry| e.is_dir && e.name@ != seq![0x2Eu8, 0x67u8, 0x69u8, 0x74u8];
    let g = |e: Entry| Place { rel: path_in(place.rel, e.name@), parts: place.parts.push(e.name@) };
    if entries.len() == 0 {
        assert(entries.filter(f).map_values(g) == Seq::<Place>::empty());
    } else {
        let u = entries.drop_last();
        law_children_are_visited(place, u);
        if f(entries.last()) {
            assert(u.filter(f).push(entries.last()).map_values(g) == u.filter(f).map_values(
                g,
            ).push(g(entries.last())));
        }
    }
}

// ---------------------------------------------------------------------------
// What values say
// ---------------------------------------------------------------------------
/// What findings say, one for one: path, check, message and fix.
pub proof fn law_findings_say(findings: Seq<Finding>, i: int)
    requires
        0 <= i < findings.len(),
    ensures
        reports_of(findings).len() == findings.len(),
        reports_of(findings)[i].path == findings[i].path@,
        reports_of(findings)[i].check.id == findings[i].check.id@,
        reports_of(findings)[i].check.name == findings[i].check.name@,
        reports_of(findings)[i].check.severity == findings[i].check.severity,
        reports_of(findings)[i].message == findings[i].message@,
        findings[i].fix is None ==> reports_of(findings)[i].fix is None,
        findings[i].fix is Some ==> reports_of(findings)[i].fix == Some((findings[i].fix->0)@),
{
}

/// What renames say, one for one: directory, names and reasons.
pub proof fn law_renames_say(renames: Seq<Rename>, i: int)
    requires
        0 <= i < renames.len(),
    ensures
        moves_of(renames).len() == renames.len(),
        moves_of(renames)[i].dir == renames[i].dir@,
        moves_of(renames)[i].parts.len() == renames[i].dir_path@.len(),
        forall|j: int|
            0 <= j < renames[i].dir_path@.len() ==> #[trigger] moves_of(renames)[i].parts[j]
                == renames[i].dir_path@[j]@,
        moves_of(renames)[i].from == renames[i].from@,
        moves_of(renames)[i].from_display == renames[i].from_display@,
        moves_of(renames)[i].to == renames[i].to@,
        moves_of(renames)[i].reasons.len() == renames[i].reasons@.len(),
        forall|j: int|
            0 <= j < renames[i].reasons@.len() ==> #[trigger] moves_of(renames)[i].reasons[j]
                == renames[i].reasons@[j]@,
{
}

/// What a walk has recorded, one for one: the path of a directory and its entries.
pub proof fn law_walks_say(dirs: Seq<Dir>, i: int)
    requires
        0 <= i < dirs.len(),
    ensures
        visits_of(dirs).len() == dirs.len(),
        visits_of(dirs)[i].place.rel == dirs[i].rel@,
        visits_of(dirs)[i].place.parts.len() == dirs[i].rel_path@.len(),
        forall|j: int|
            0 <= j < dirs[i].rel_path@.len() ==> #[trigger] visits_of(dirs)[i].place.parts[j]
                == dirs[i].rel_path@[j]@,
        visits_of(dirs)[i].entries == dirs[i].entries@,
{
}

/// What paths are, one for one.
pub proof fn law_paths_say(paths: Seq<Vec<u8>>, i: int)
    requires
        0 <= i < paths.len(),
    ensures
        raws_of(paths).len() == paths.len(),
        raws_of(paths)[i] == paths[i]@,
{
}

} // verus!
