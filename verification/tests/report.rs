//! Reports.

use namefence::engine::{scan_paths, ScanResult, Stats};
use namefence::report::{
    json_escape, render_json, render_plan_json, render_plan_text, render_text, should_fail, FailOn,
};

fn result_with(paths: &[&str]) -> ScanResult {
    let lines: Vec<Vec<u8>> = paths.iter().map(|p| p.as_bytes().to_vec()).collect();
    scan_paths(&lines)
}

#[test]
fn text_report_carries_fix_and_summary() {
    let result = result_with(&["aux.txt", "ok.txt"]);
    let text = render_text(&result);
    assert!(text.contains("aux.txt: error NF001 (windows-reserved-name)"));
    assert!(text.contains("fix: rename to `aux_.txt`"));
    assert!(text.contains("findings: 1 — 1 error(s), 0 warning(s), 0 info"));
}

#[test]
fn clean_report_says_none() {
    let result = result_with(&["ok.txt"]);
    let text = render_text(&result);
    assert!(text.starts_with("findings: none"));
}

#[test]
fn json_report_is_stable_and_escaped() {
    let result = result_with(&["say \"hi\".txt"]);
    let json = render_json(".", &result);
    assert!(json.contains("\"tool\": \"namefence\""));
    assert!(json.contains(&format!("\"version\": \"{}\"", namefence::VERSION)));
    assert!(json.contains("\"check\": \"NF002\""));
    // The quote inside the filename must be escaped in path and message.
    assert!(json.contains("say \\\"hi\\\".txt"));
    assert!(json.contains("\"fix\": \"say 'hi'.txt\""));
    assert!(json.contains("\"stats\": {\"files\": 1"));
}

#[test]
fn json_null_fix_for_advisory_findings() {
    let result = result_with(&["thumbs.db"]);
    let json = render_json(".", &result);
    assert!(json.contains("\"check\": \"NF012\""));
    assert!(json.contains("\"fix\": null"));
}

#[test]
fn json_escape_covers_controls() {
    assert_eq!(json_escape("a\"b\\c\nd\u{1}"), "a\\\"b\\\\c\\nd\\u0001");
}

#[test]
fn fail_on_thresholds() {
    let errors = result_with(&["aux.txt"]); // one error
    let warnings = result_with(&["thumbs.db"]); // one warning
    assert!(should_fail(&errors, FailOn::Warning));
    assert!(should_fail(&errors, FailOn::Error));
    assert!(!should_fail(&errors, FailOn::Never));
    assert!(should_fail(&warnings, FailOn::Warning));
    assert!(!should_fail(&warnings, FailOn::Error));
    let clean = ScanResult {
        findings: Vec::new(),
        stats: Stats {
            files: 0,
            dirs: 0,
            errors: 0,
            warnings: 0,
            infos: 0,
            truncated: false,
        },
    };
    assert!(!should_fail(&clean, FailOn::Info));
}

#[test]
fn truncated_walks_are_labelled() {
    let mut result = result_with(&["ok.txt"]);
    result.stats.truncated = true;
    assert!(render_text(&result).contains("results are partial"));
    assert!(render_json(".", &result).contains("\"truncated\": true"));
}

#[test]
fn text_reports_are_exact() {
    let result = result_with(&["aux.txt", "thumbs.db"]);
    assert_eq!(
        render_text(&result),
        "aux.txt: error NF001 (windows-reserved-name): `aux.txt` has the reserved DOS device stem \
`AUX`; Windows cannot create, open or delete it\n    fix: rename to `aux_.txt`\n\
thumbs.db: warning NF012 (cloud-reserved-name): `thumbs.db` is silently skipped by Dropbox; if \
it holds real data it will quietly not sync\n\n\
findings: 2 — 1 error(s), 1 warning(s), 0 info; 2 file(s), 0 directory(ies) scanned\n"
    );
    let mut clean = result_with(&["ok"]);
    clean.stats.truncated = true;
    assert_eq!(
        render_text(&clean),
        "findings: none — 1 file(s), 0 directory(ies) scanned [walk truncated by --max-files; \
results are partial]\n"
    );
}

#[test]
fn json_reports_are_exact() {
    let result = result_with(&["b.", "thumbs.db"]);
    assert_eq!(
        render_json("a\"b", &result),
        "{\n  \"tool\": \"namefence\",\n  \"version\": \"0.1.0\",\n  \"root\": \"a\\\"b\",\n  \
\"findings\": [\n    {\"path\": \"b.\", \"check\": \"NF004\", \"name\": \"trailing-dot-or-space\", \
\"severity\": \"error\", \"message\": \"`b.` ends with a dot; Windows silently strips it, so the \
stored and visible names disagree\", \"fix\": \"b\"},\n    {\"path\": \"thumbs.db\", \"check\": \
\"NF012\", \"name\": \"cloud-reserved-name\", \"severity\": \"warning\", \"message\": \"`thumbs.db` \
is silently skipped by Dropbox; if it holds real data it will quietly not sync\", \"fix\": \
null}\n  ],\n  \"stats\": {\"files\": 2, \"dirs\": 0, \"errors\": 1, \"warnings\": 1, \"infos\": 0, \
\"truncated\": false}\n}\n"
    );
}

#[test]
fn empty_plans_say_so() {
    assert_eq!(
        render_plan_text(&[], false),
        "nothing to fix — every name is portable\n"
    );
    assert_eq!(
        render_plan_json("r", &[], true),
        "{\n  \"tool\": \"namefence\",\n  \"version\": \"0.1.0\",\n  \"root\": \"r\",\n  \
\"applied\": true,\n  \"renames\": [\n  ]\n}\n"
    );
}

#[test]
fn policies_by_name() {
    assert_eq!(FailOn::parse("never"), Some(FailOn::Never));
    assert_eq!(FailOn::parse("info"), Some(FailOn::Info));
    assert_eq!(FailOn::parse("warning"), Some(FailOn::Warning));
    assert_eq!(FailOn::parse("error"), Some(FailOn::Error));
    assert_eq!(FailOn::parse("Error"), None);
    assert_eq!(FailOn::parse(""), None);
}

#[test]
fn json_escapes_each_kind() {
    assert_eq!(json_escape("\r\t\u{1F}\u{7F}\u{E9}/"), "\\r\\t\\u001f\u{7F}\u{E9}/");
    assert_eq!(json_escape(""), "");
}
