//! Rendering: findings and rename plans as text or stable JSON, and the policy of
//! when a run fails.
//!
//! The JSON shape is part of the interface, so it is written by hand, with a
//! stable order of keys.

use vstd::prelude::*;
use vstd::string::StringExecFns;

use crate::engine::{reports_of, Finding, Report, ScanResult, Stats};
use crate::fixname::{moves_of, slices_of, Move, Rename};
use crate::json::document;
use crate::json_laws::{
    has_plain_check, has_plain_reasons, law_plans_read_back, law_reports_read_back, plan_value,
    report_value,
};
use crate::numerals::{decimal, digit, numeral, push_decimal, push_numeral};
use crate::rules::Severity;
use crate::text::same_text;
use crate::VERSION;

verus! {

// ---------------------------------------------------------------------------
// Failing
// ---------------------------------------------------------------------------
/// The lowest severity that makes a run fail.
#[derive(Debug, Clone, Copy, PartialEq, Eq, Structural)]
pub enum FailOn {
    Never,
    Info,
    Warning,
    Error,
}

impl FailOn {
    /// The name of a policy.
    pub open spec fn label(self) -> Seq<char> {
        match self {
            FailOn::Never => "never"@,
            FailOn::Info => "info"@,
            FailOn::Warning => "warning"@,
            FailOn::Error => "error"@,
        }
    }

    /// Does a finding of that severity make a run fail?
    pub open spec fn is_met(self, severity: Severity) -> bool {
        match self {
            FailOn::Never => false,
            FailOn::Info => true,
            FailOn::Warning => severity != Severity::Info,
            FailOn::Error => severity == Severity::Error,
        }
    }

    /// The policy of that name.
    pub fn parse(s: &str) -> (r: Option<FailOn>)
        ensures
            r is Some ==> s@ == (r->0).label(),
            r is None ==> forall|f: FailOn| s@ != #[trigger] f.label(),
    {
        if same_text(s, "never") {
            Some(FailOn::Never)
        } else if same_text(s, "info") {
            Some(FailOn::Info)
        } else if same_text(s, "warning") {
            Some(FailOn::Warning)
        } else if same_text(s, "error") {
            Some(FailOn::Error)
        } else {
            None
        }
    }
}

/// Two policies of one name are the same.
pub proof fn law_policy_labels_differ(a: FailOn, b: FailOn)
    requires
        a.label() == b.label(),
    ensures
        a == b,
{
    reveal_strlit("never");
    reveal_strlit("info");
    reveal_strlit("warning");
    reveal_strlit("error");
    assert("never"@[0] == 'n' && "info"@[0] == 'i' && "warning"@[0] == 'w' && "error"@[0] == 'e');
}

/// A stricter policy fails wherever a laxer one does.
pub proof fn law_policies_are_nested(severity: Severity)
    ensures
        !FailOn::Never.is_met(severity),
        FailOn::Error.is_met(severity) ==> FailOn::Warning.is_met(severity),
        FailOn::Warning.is_met(severity) ==> FailOn::Info.is_met(severity),
{
}

/// Does one of `reports` make a run fail?
pub open spec fn is_failure(reports: Seq<Report>, fail_on: FailOn) -> bool {
    exists|i: int| 0 <= i < reports.len() && fail_on.is_met((#[trigger] reports[i]).check.severity)
}

/// Does the run fail under the given policy?
pub fn should_fail(result: &ScanResult, fail_on: FailOn) -> (r: bool)
    ensures
        r == is_failure(reports_of(result.findings@), fail_on),
{
    let ghost reports = reports_of(result.findings@);
    let threshold: Severity = match fail_on {
        FailOn::Never => {
            return false;
        },
        FailOn::Info => Severity::Info,
        FailOn::Warning => Severity::Warning,
        FailOn::Error => Severity::Error,
    };
    let mut i: usize = 0;
    while i < result.findings.len()
        invariant
            i <= result.findings@.len(),
            reports == reports_of(result.findings@),
            forall|s: Severity| fail_on.is_met(s) == (#[trigger] s.level() >= threshold.level()),
            forall|j: int|
                0 <= j < i ==> !fail_on.is_met((#[trigger] reports[j]).check.severity),
        decreases result.findings@.len() - i,
    {
        assert(reports[i as int] == result.findings@[i as int]@);
        assert(fail_on.is_met(reports[i as int].check.severity) == (
        reports[i as int].check.severity.level() >= threshold.level()));
        if result.findings[i].check.severity.at_least(threshold) {
            return true;
        }
        i = i + 1;
    }
    false
}

// ---------------------------------------------------------------------------
// JSON strings
// ---------------------------------------------------------------------------
/// How a character stands in a JSON string.
pub open spec fn escaped_char(c: char) -> Seq<char> {
    if c == '"' {
        "\\\""@
    } else if c == '\\' {
        "\\\\"@
    } else if c == '\n' {
        "\\n"@
    } else if c == '\r' {
        "\\r"@
    } else if c == '\t' {
        "\\t"@
    } else if '\u{20}' > c {
        "\\u"@ + numeral(c as nat, 16, 4, false)
    } else {
        seq![c]
    }
}

/// How a text stands in a JSON string.
pub open spec fn escaped(s: Seq<char>) -> Seq<char>
    decreases s.len(),
{
    if s.len() == 0 {
        seq![]
    } else {
        escaped(s.drop_last()) + escaped_char(s.last())
    }
}

/// Appends a character as it stands in a JSON string.
fn push_escaped(out: &mut String, c: char)
    ensures
        final(out)@ == old(out)@ + escaped_char(c),
{
    if c == '"' {
        out.append("\\\"");
    } else if c == '\\' {
        out.append("\\\\");
    } else if c == '\n' {
        out.append("\\n");
    } else if c == '\r' {
        out.append("\\r");
    } else if c == '\t' {
        out.append("\\t");
    } else if '\u{20}' > c {
        out.append("\\u");
        push_numeral(out, c as u32 as u128, 16, 4, false);
    } else {
        out.push(c);
    }
    assert(out@ == old(out)@ + escaped_char(c));
}

/// Escapes a text for a JSON string.
pub fn json_escape(s: &str) -> (r: String)
    ensures
        r@ == escaped(s@),
{
    let mut out = String::new();
    for c in it: s.chars()
        invariant
            it.seq() == s@,
            out@ == escaped(s@.take(it.index())),
    {
        assert(s@.take(it.index() + 1).drop_last() == s@.take(it.index()));
        push_escaped(&mut out, c);
    }
    assert(s@.take(s@.len() as int) == s@);
    out
}

/// The number that a hexadecimal digit stands for.
pub open spec fn hex_value(c: char) -> Option<int> {
    if '0' <= c <= '9' {
        Some(c as int - '0' as int)
    } else if 'a' <= c <= 'f' {
        Some(c as int - 'a' as int + 10)
    } else {
        None
    }
}

/// The character that `\u` and the first four characters of `t` stand for.
pub open spec fn hex_char(t: Seq<char>) -> Option<char> {
    match (hex_value(t[0]), hex_value(t[1]), hex_value(t[2]), hex_value(t[3])) {
        (Some(a), Some(b), Some(c), Some(d)) => Some(
            (((a * 16 + b) * 16 + c) * 16 + d) as char,
        ),
        _ => None,
    }
}

/// The character that a JSON string begins with, and how many characters it is
/// written in.
pub open spec fn read_char(t: Seq<char>) -> Option<(char, int)> {
    if t[0] != '\\' {
        if '\u{20}' > t[0] || t[0] == '"' {
            None
        } else {
            Some((t[0], 1))
        }
    } else if t.len() < 2 {
        None
    } else if t[1] == '"' || t[1] == '\\' {
        Some((t[1], 2))
    } else if t[1] == 'n' {
        Some(('\n', 2))
    } else if t[1] == 'r' {
        Some(('\r', 2))
    } else if t[1] == 't' {
        Some(('\t', 2))
    } else if t[1] == 'u' && t.len() >= 6 {
        match hex_char(t.skip(2)) {
            Some(c) => Some((c, 6)),
            None => None,
        }
    } else {
        None
    }
}

/// The text that the inside of a JSON string stands for, if it is one.
pub open spec fn read_json(t: Seq<char>) -> Option<Seq<char>>
    decreases t.len(),
{
    if t.len() == 0 {
        Some(seq![])
    } else {
        match read_char(t) {
            None => None,
            Some((c, n)) => if n <= 0 {
                None
            } else {
                match read_json(t.skip(n)) {
                    None => None,
                    Some(rest) => Some(seq![c] + rest),
                }
            },
        }
    }
}

/// Two JSON strings behind each other stand for two texts behind each other.
proof fn lemma_read_concat(a: Seq<char>, b: Seq<char>)
    requires
        read_json(a) is Some,
        read_json(b) is Some,
    ensures
        read_json(a + b) == Some(read_json(a)->0 + read_json(b)->0),
    decreases a.len(),
{
    if a.len() == 0 {
        assert(a + b == b);
        assert(read_json(a)->0 + read_json(b)->0 == read_json(b)->0);
    } else {
        let (c, n) = read_char(a)->0;
        assert((a + b).skip(2).len() >= 4 ==> a.len() >= 6 ==> hex_char((a + b).skip(2))
            == hex_char(a.skip(2)));
        assert(read_char(a + b) == read_char(a));
        assert(n <= a.len());
        assert((a + b).skip(n) == a.skip(n) + b);
        lemma_read_concat(a.skip(n), b);
        let rest = read_json(a.skip(n))->0;
        assert(seq![c] + (rest + read_json(b)->0) == seq![c] + rest + read_json(b)->0);
    }
}

/// An escaped character reads back.
proof fn lemma_read_escaped(c: char)
    ensures
        read_json(escaped_char(c)) == Some(seq![c]),
{
    reveal_strlit("\\\"");
    reveal_strlit("\\\\");
    reveal_strlit("\\n");
    reveal_strlit("\\r");
    reveal_strlit("\\t");
    reveal_strlit("\\u");
    let t = escaped_char(c);
    let none = Seq::<char>::empty();
    if '\u{20}' > c && c != '\n' && c != '\r' && c != '\t' {
        let n = c as nat;
        reveal_with_fuel(numeral, 4);
        assert(numeral(n, 16, 4, false) == seq!['0', '0', digit(n / 16, false), digit(
            n % 16,
            false,
        )]);
        assert(t == seq!['\\', 'u', '0', '0', digit(n / 16, false), digit(n % 16, false)]);
        assert(t.skip(2) == seq!['0', '0', digit(n / 16, false), digit(n % 16, false)]);
        assert(hex_char(t.skip(2)) == Some(c));
        assert(t.skip(6) == none);
    } else {
        assert(t.len() == 1 ==> t.skip(1) == none);
        assert(t.len() == 2 ==> t.skip(2) == none);
    }
    reveal_with_fuel(read_json, 2);
    assert(seq![c] + none == seq![c]);
}

/// An escaped text reads back from JSON as it was.
pub proof fn law_escaped_reads_back(s: Seq<char>)
    ensures
        read_json(escaped(s)) == Some(s),
    decreases s.len(),
{
    if s.len() == 0 {
        assert(s == Seq::<char>::empty());
    } else {
        law_escaped_reads_back(s.drop_last());
        lemma_read_escaped(s.last());
        lemma_read_concat(escaped(s.drop_last()), escaped_char(s.last()));
        assert(s.drop_last() + seq![s.last()] == s);
    }
}

// ---------------------------------------------------------------------------
// Findings
// ---------------------------------------------------------------------------
/// A finding as text.
pub open spec fn finding_line(f: Report) -> Seq<char> {
    let line = f.path + ": "@ + f.check.severity.label() + " "@ + f.check.id + " ("@ + f.check.name
        + "): "@ + f.message;
    match f.fix {
        Some(fix) => line + "\n    fix: rename to `"@ + fix + "`"@,
        None => line,
    }
}

fn finding_text(f: &Finding) -> (r: String)
    ensures
        r@ == finding_line(f@),
{
    let mut line: String = f.path.clone();
    line.append(": ");
    line.append(f.check.severity.as_str());
    line.append(" ");
    line.append(f.check.id);
    line.append(" (");
    line.append(f.check.name);
    line.append("): ");
    line.append(&f.message);
    if let Some(fix) = &f.fix {
        line.append("\n    fix: rename to `");
        line.append(fix);
        line.append("`");
    }
    line
}

/// The end of a summary: what was scanned.
pub open spec fn scanned(stats: Stats) -> Seq<char> {
    decimal(stats.files as nat) + " file(s), "@ + decimal(stats.dirs as nat)
        + " directory(ies) scanned"@ + if stats.truncated {
        " [walk truncated by --max-files; results are partial]"@
    } else {
        ""@
    }
}

/// The summary of `count` findings.
pub open spec fn summary(count: nat, stats: Stats) -> Seq<char> {
    if count == 0 {
        "findings: none — "@ + scanned(stats)
    } else {
        "findings: "@ + decimal(count) + " — "@ + decimal(stats.errors as nat) + " error(s), "@
            + decimal(stats.warnings as nat) + " warning(s), "@ + decimal(stats.infos as nat)
            + " info; "@ + scanned(stats)
    }
}

fn scanned_text(stats: &Stats) -> (r: String)
    ensures
        r@ == scanned(*stats),
{
    let mut out = String::new();
    push_decimal(&mut out, stats.files);
    assert(out@ == decimal(stats.files as nat));
    out.append(" file(s), ");
    push_decimal(&mut out, stats.dirs);
    out.append(" directory(ies) scanned");
    if stats.truncated {
        out.append(" [walk truncated by --max-files; results are partial]");
    } else {
        out.append("");
    }
    out
}

fn summary_line(result: &ScanResult) -> (r: String)
    ensures
        r@ == summary(result.findings@.len(), result.stats),
{
    let s: &Stats = &result.stats;
    if result.findings.len() == 0 {
        let mut out: String = "findings: none — ".to_owned();
        out.append(&scanned_text(s));
        out
    } else {
        let mut out: String = "findings: ".to_owned();
        push_decimal(&mut out, result.findings.len());
        out.append(" — ");
        push_decimal(&mut out, s.errors);
        out.append(" error(s), ");
        push_decimal(&mut out, s.warnings);
        out.append(" warning(s), ");
        push_decimal(&mut out, s.infos);
        out.append(" info; ");
        out.append(&scanned_text(s));
        out
    }
}

/// One block for each finding.
pub open spec fn finding_blocks(reports: Seq<Report>) -> Seq<char>
    decreases reports.len(),
{
    if reports.len() == 0 {
        seq![]
    } else {
        finding_blocks(reports.drop_last()) + finding_line(reports.last()) + "\n"@
    }
}

/// The report as text: one block for each finding, then the summary.
pub open spec fn text_report(reports: Seq<Report>, stats: Stats) -> Seq<char> {
    finding_blocks(reports) + (if reports.len() == 0 {
        ""@
    } else {
        "\n"@
    }) + summary(reports.len(), stats) + "\n"@
}

/// Renders the report as text.
pub fn render_text(result: &ScanResult) -> (r: String)
    ensures
        r@ == text_report(reports_of(result.findings@), result.stats),
{
    let ghost reports = reports_of(result.findings@);
    let mut out = String::new();
    let mut i: usize = 0;
    assert(out@ == finding_blocks(reports.take(0)));
    while i < result.findings.len()
        invariant
            i <= result.findings@.len(),
            reports == reports_of(result.findings@),
            out@ == finding_blocks(reports.take(i as int)),
        decreases result.findings@.len() - i,
    {
        assert(reports.take(i + 1).drop_last() == reports.take(i as int));
        assert(reports.take(i + 1).last() == result.findings@[i as int]@);
        out.append(&finding_text(&result.findings[i]));
        out.append("\n");
        i = i + 1;
    }
    assert(reports.take(reports.len() as int) == reports);
    if result.findings.len() == 0 {
        out.append("");
    } else {
        out.append("\n");
    }
    out.append(&summary_line(result));
    out.append("\n");
    out
}

/// A fix in JSON.
pub open spec fn fix_json(fix: Option<Seq<char>>) -> Seq<char> {
    match fix {
        Some(f) => "\""@ + escaped(f) + "\""@,
        None => "null"@,
    }
}

/// A finding in JSON.
pub open spec fn finding_json(f: Report) -> Seq<char> {
    "    {\"path\": \""@ + escaped(f.path) + "\", \"check\": \""@ + f.check.id + "\", \"name\": \""@
        + f.check.name + "\", \"severity\": \""@ + f.check.severity.label()
        + "\", \"message\": \""@ + escaped(f.message) + "\", \"fix\": "@ + fix_json(f.fix) + "}"@
}

/// The first `k` findings in JSON, with commas between all of them.
pub open spec fn findings_json(reports: Seq<Report>, k: int) -> Seq<char>
    decreases k,
{
    if k <= 0 {
        seq![]
    } else {
        findings_json(reports, k - 1) + finding_json(reports[k - 1]) + (if k < reports.len() {
            ","@
        } else {
            ""@
        }) + "\n"@
    }
}

pub open spec fn bool_json(b: bool) -> Seq<char> {
    if b {
        "true"@
    } else {
        "false"@
    }
}

/// The start of every JSON report.
pub open spec fn json_head(root: Seq<char>) -> Seq<char> {
    "{\n  \"tool\": \"namefence\",\n  \"version\": \""@ + VERSION@ + "\",\n  \"root\": \""@
        + escaped(root) + "\",\n"@
}

/// The numbers of a scan in JSON.
pub open spec fn stats_json(s: Stats) -> Seq<char> {
    "  \"stats\": {\"files\": "@ + decimal(s.files as nat) + ", \"dirs\": "@ + decimal(
        s.dirs as nat,
    ) + ", \"errors\": "@ + decimal(s.errors as nat) + ", \"warnings\": "@ + decimal(
        s.warnings as nat,
    ) + ", \"infos\": "@ + decimal(s.infos as nat) + ", \"truncated\": "@ + bool_json(s.truncated)
        + "}\n"@
}

/// The report in JSON.
pub open spec fn json_report(root: Seq<char>, reports: Seq<Report>, stats: Stats) -> Seq<char> {
    json_head(root) + "  \"findings\": [\n"@ + findings_json(reports, reports.len() as int)
        + "  ],\n"@ + stats_json(stats) + "}\n"@
}

fn finding_json_text(f: &Finding) -> (r: String)
    ensures
        r@ == finding_json(f@),
{
    let mut fix = String::new();
    match &f.fix {
        Some(t) => {
            fix.append("\"");
            fix.append(&json_escape(t));
            fix.append("\"");
        },
        None => {
            fix.append("null");
        },
    }
    assert(fix@ == fix_json(f@.fix));
    let mut out: String = "    {\"path\": \"".to_owned();
    out.append(&json_escape(&f.path));
    out.append("\", \"check\": \"");
    out.append(f.check.id);
    out.append("\", \"name\": \"");
    out.append(f.check.name);
    out.append("\", \"severity\": \"");
    out.append(f.check.severity.as_str());
    out.append("\", \"message\": \"");
    out.append(&json_escape(&f.message));
    out.append("\", \"fix\": ");
    out.append(&fix);
    out.append("}");
    out
}

fn json_head_text(root: &str) -> (r: String)
    ensures
        r@ == json_head(root@),
{
    let mut out: String = "{\n  \"tool\": \"namefence\",\n  \"version\": \"".to_owned();
    out.append(VERSION);
    out.append("\",\n  \"root\": \"");
    out.append(&json_escape(root));
    out.append("\",\n");
    out
}

fn bool_text(b: bool) -> (r: &'static str)
    ensures
        r@ == bool_json(b),
{
    if b {
        "true"
    } else {
        "false"
    }
}

fn stats_json_text(s: &Stats) -> (r: String)
    ensures
        r@ == stats_json(*s),
{
    let mut out: String = "  \"stats\": {\"files\": ".to_owned();
    push_decimal(&mut out, s.files);
    out.append(", \"dirs\": ");
    push_decimal(&mut out, s.dirs);
    out.append(", \"errors\": ");
    push_decimal(&mut out, s.errors);
    out.append(", \"warnings\": ");
    push_decimal(&mut out, s.warnings);
    out.append(", \"infos\": ");
    push_decimal(&mut out, s.infos);
    out.append(", \"truncated\": ");
    out.append(bool_text(s.truncated));
    out.append("}\n");
    out
}

/// Renders the report in JSON.
pub fn render_json(root: &str, result: &ScanResult) -> (r: String)
    ensures
        r@ == json_report(root@, reports_of(result.findings@), result.stats),
        (forall|i: int|
            0 <= i < result.findings@.len() ==> has_plain_check(
                #[trigger] reports_of(result.findings@)[i],
            )) ==> document(r@) == Some(
            report_value(root@, reports_of(result.findings@), result.stats),
        ),
{
    let ghost reports = reports_of(result.findings@);
    let mut list = String::new();
    let n: usize = result.findings.len();
    let mut i: usize = 0;
    assert(list@ == findings_json(reports, 0));
    while i < n
        invariant
            i <= n == result.findings@.len(),
            reports == reports_of(result.findings@),
            list@ == findings_json(reports, i as int),
        decreases n - i,
    {
        assert(reports[i as int] == result.findings@[i as int]@);
        list.append(&finding_json_text(&result.findings[i]));
        list.append(
            if i + 1 < n {
                ","
            } else {
                ""
            },
        );
        list.append("\n");
        i = i + 1;
    }
    let mut out: String = json_head_text(root);
    out.append("  \"findings\": [\n");
    out.append(&list);
    out.append("  ],\n");
    out.append(&stats_json_text(&result.stats));
    out.append("}\n");
    proof {
        if forall|i: int|
            0 <= i < result.findings@.len() ==> has_plain_check(#[trigger] reports[i]) {
            law_reports_read_back(root@, reports, result.stats);
        }
    }
    out
}

// ---------------------------------------------------------------------------
// Plans
// ---------------------------------------------------------------------------
/// Texts with a separator between.
pub open spec fn joined(parts: Seq<Seq<char>>, separator: Seq<char>) -> Seq<char>
    decreases parts.len(),
{
    if parts.len() == 0 {
        seq![]
    } else if parts.len() == 1 {
        parts[0]
    } else {
        joined(parts.drop_last(), separator) + separator + parts.last()
    }
}

/// Joins string slices with a separator between.
pub fn join_slices(parts: &[&'static str], separator: &str) -> (r: String)
    ensures
        r@ == joined(slices_of(parts@), separator@),
{
    let ghost all = slices_of(parts@);
    let mut out = String::new();
    let mut i: usize = 0;
    assert(out@ == joined(all.take(0), separator@));
    while i < parts.len()
        invariant
            i <= parts@.len(),
            all == slices_of(parts@),
            out@ == joined(all.take(i as int), separator@),
        decreases parts@.len() - i,
    {
        assert(all.take(i + 1).drop_last() == all.take(i as int));
        assert(all.take(i + 1).last() == parts@[i as int]@);
        if i > 0 {
            out.append(separator);
        }
        out.append(parts[i]);
        assert(out@ == joined(all.take(i + 1), separator@));
        i = i + 1;
    }
    assert(all.take(all.len() as int) == all);
    out
}

/// The display path of what a rename is about.
pub open spec fn move_path(m: Move) -> Seq<char> {
    if m.dir.len() == 0 {
        m.from_display
    } else {
        m.dir + "/"@ + m.from_display
    }
}

fn rename_path(r: &Rename) -> (p: String)
    ensures
        p@ == move_path(r@),
{
    crate::walker::join_text(&r.dir, &r.from_display)
}

/// A rename as text.
pub open spec fn move_line(m: Move, applied: bool) -> Seq<char> {
    (if applied {
        "renamed"@
    } else {
        "would rename"@
    }) + " `"@ + move_path(m) + "` -> `"@ + m.to + "`  ("@ + joined(m.reasons, ", "@) + ")\n"@
}

/// One line for each rename.
pub open spec fn move_lines(moves: Seq<Move>, applied: bool) -> Seq<char>
    decreases moves.len(),
{
    if moves.len() == 0 {
        seq![]
    } else {
        move_lines(moves.drop_last(), applied) + move_line(moves.last(), applied)
    }
}

/// A plan as text, or the result of carrying it out.
pub open spec fn text_plan(moves: Seq<Move>, applied: bool) -> Seq<char> {
    move_lines(moves, applied) + if moves.len() == 0 {
        "nothing to fix — every name is portable\n"@
    } else if applied {
        "applied "@ + decimal(moves.len()) + " rename(s)\n"@
    } else {
        "planned "@ + decimal(moves.len())
            + " rename(s) — re-run with --apply to perform them\n"@
    }
}

fn move_text(r: &Rename, applied: bool) -> (t: String)
    ensures
        t@ == move_line(r@, applied),
{
    let mut out: String = if applied {
        "renamed".to_owned()
    } else {
        "would rename".to_owned()
    };
    out.append(" `");
    out.append(&rename_path(r));
    out.append("` -> `");
    out.append(&r.to);
    out.append("`  (");
    out.append(&join_slices(&r.reasons, ", "));
    out.append(")\n");
    out
}

/// Renders a rename plan, or the result of carrying it out, as text.
pub fn render_plan_text(renames: &[Rename], applied: bool) -> (r: String)
    ensures
        r@ == text_plan(moves_of(renames@), applied),
{
    let ghost moves = moves_of(renames@);
    let mut out = String::new();
    let mut i: usize = 0;
    assert(out@ == move_lines(moves.take(0), applied));
    while i < renames.len()
        invariant
            i <= renames@.len(),
            moves == moves_of(renames@),
            out@ == move_lines(moves.take(i as int), applied),
        decreases renames@.len() - i,
    {
        assert(moves.take(i + 1).drop_last() == moves.take(i as int));
        assert(moves.take(i + 1).last() == renames@[i as int]@);
        out.append(&move_text(&renames[i], applied));
        i = i + 1;
    }
    assert(moves.take(moves.len() as int) == moves);
    let mut end = String::new();
    if renames.len() == 0 {
        end.append("nothing to fix — every name is portable\n");
    } else if applied {
        end.append("applied ");
        push_decimal(&mut end, renames.len());
        end.append(" rename(s)\n");
    } else {
        end.append("planned ");
        push_decimal(&mut end, renames.len());
        end.append(" rename(s) — re-run with --apply to perform them\n");
    }
    out.append(&end);
    assert(out@ == text_plan(moves, applied));
    out
}

/// Texts in quotes.
pub open spec fn quoted(parts: Seq<Seq<char>>) -> Seq<Seq<char>> {
    parts.map_values(|p: Seq<char>| "\""@ + p + "\""@)
}

/// A rename in JSON.
pub open spec fn move_json(m: Move) -> Seq<char> {
    "    {\"dir\": \""@ + escaped(m.dir) + "\", \"from\": \""@ + escaped(m.from_display)
        + "\", \"to\": \""@ + escaped(m.to) + "\", \"reasons\": ["@ + joined(
        quoted(m.reasons),
        ", "@,
    ) + "]}"@
}

/// The first `k` renames in JSON, with commas between all of them.
pub open spec fn moves_json(moves: Seq<Move>, k: int) -> Seq<char>
    decreases k,
{
    if k <= 0 {
        seq![]
    } else {
        moves_json(moves, k - 1) + move_json(moves[k - 1]) + (if k < moves.len() {
            ","@
        } else {
            ""@
        }) + "\n"@
    }
}

/// A plan in JSON.
pub open spec fn json_plan(root: Seq<char>, moves: Seq<Move>, applied: bool) -> Seq<char> {
    json_head(root) + "  \"applied\": "@ + bool_json(applied) + ",\n  \"renames\": [\n"@
        + moves_json(moves, moves.len() as int) + "  ]\n}\n"@
}

/// Joins string slices in quotes with commas between.
fn join_quoted(parts: &[&'static str]) -> (r: String)
    ensures
        r@ == joined(quoted(slices_of(parts@)), ", "@),
{
    let ghost all = quoted(slices_of(parts@));
    let mut out = String::new();
    let mut i: usize = 0;
    assert(out@ == joined(all.take(0), ", "@));
    while i < parts.len()
        invariant
            i <= parts@.len(),
            all == quoted(slices_of(parts@)),
            out@ == joined(all.take(i as int), ", "@),
        decreases parts@.len() - i,
    {
        assert(all.take(i + 1).drop_last() == all.take(i as int));
        assert(all.take(i + 1).last() == "\""@ + parts@[i as int]@ + "\""@);
        if i > 0 {
            out.append(", ");
        }
        let mut one: String = "\"".to_owned();
        one.append(parts[i]);
        one.append("\"");
        out.append(&one);
        assert(out@ == joined(all.take(i + 1), ", "@));
        i = i + 1;
    }
    assert(all.take(all.len() as int) == all);
    out
}

fn move_json_text(r: &Rename) -> (t: String)
    ensures
        t@ == move_json(r@),
{
    let mut out: String = "    {\"dir\": \"".to_owned();
    out.append(&json_escape(&r.dir));
    out.append("\", \"from\": \"");
    out.append(&json_escape(&r.from_display));
    out.append("\", \"to\": \"");
    out.append(&json_escape(&r.to));
    out.append("\", \"reasons\": [");
    out.append(&join_quoted(&r.reasons));
    out.append("]}");
    out
}

/// Renders a rename plan in JSON.
pub fn render_plan_json(root: &str, renames: &[Rename], applied: bool) -> (r: String)
    ensures
        r@ == json_plan(root@, moves_of(renames@), applied),
        (forall|i: int|
            0 <= i < renames@.len() ==> has_plain_reasons(#[trigger] moves_of(renames@)[i]))
            ==> document(r@) == Some(plan_value(root@, moves_of(renames@), applied)),
{
    let ghost moves = moves_of(renames@);
    let mut list = String::new();
    let n: usize = renames.len();
    let mut i: usize = 0;
    assert(list@ == moves_json(moves, 0));
    while i < n
        invariant
            i <= n == renames@.len(),
            moves == moves_of(renames@),
            list@ == moves_json(moves, i as int),
        decreases n - i,
    {
        assert(moves[i as int] == renames@[i as int]@);
        list.append(&move_json_text(&renames[i]));
        list.append(
            if i + 1 < n {
                ","
            } else {
                ""
            },
        );
        list.append("\n");
        i = i + 1;
    }
    let mut out: String = json_head_text(root);
    out.append("  \"applied\": ");
    out.append(bool_text(applied));
    out.append(",\n  \"renames\": [\n");
    out.append(&list);
    out.append("  ]\n}\n");
    proof {
        if forall|i: int| 0 <= i < renames@.len() ==> has_plain_reasons(#[trigger] moves[i]) {
            law_plans_read_back(root@, moves, applied);
        }
    }
    out
}

} // verus!
