//! The check catalog.

use namefence::rules::{catalog, find_check, Severity, Target};

#[test]
fn ids_are_sequential_and_unique() {
    for (i, c) in catalog().iter().enumerate() {
        assert_eq!(c.id, format!("NF{:03}", i + 1));
    }
}

#[test]
fn every_check_has_targets_and_texts() {
    for c in catalog() {
        assert!(!c.targets.is_empty(), "{} has no targets", c.id);
        assert!(!c.summary.is_empty());
        assert!(c.explain.len() > 100, "{} explain too thin", c.id);
        assert!(
            c.explain.contains("fix:"),
            "{} explain lacks a fix note",
            c.id
        );
    }
}

#[test]
fn lookup_by_id_name_and_case() {
    assert_eq!(find_check("NF001").unwrap().name, "windows-reserved-name");
    assert_eq!(find_check("nf001").unwrap().name, "windows-reserved-name");
    assert_eq!(find_check("case-collision").unwrap().id, "NF006");
    assert_eq!(find_check("Case-Collision").unwrap().id, "NF006");
    assert!(find_check("NF099").is_none());
    assert!(find_check("").is_none());
}

#[test]
fn severity_ordering_drives_fail_on() {
    assert!(Severity::Error > Severity::Warning);
    assert!(Severity::Warning > Severity::Info);
}

#[test]
fn target_parse_round_trips() {
    for t in Target::ALL {
        assert_eq!(Target::parse(t.as_str()), Some(t));
    }
    assert_eq!(Target::parse("solaris"), None);
}

#[test]
fn severities_and_targets_have_names() {
    assert_eq!(Severity::Error.as_str(), "error");
    assert_eq!(Severity::Warning.as_str(), "warning");
    assert_eq!(Severity::Info.as_str(), "info");
    assert!(Severity::Error.at_least(Severity::Info));
    assert!(Severity::Warning.at_least(Severity::Warning));
    assert!(!Severity::Info.at_least(Severity::Warning));
    for a in [Severity::Info, Severity::Warning, Severity::Error] {
        for b in [Severity::Info, Severity::Warning, Severity::Error] {
            assert_eq!(a.at_least(b), a >= b);
        }
    }
    let names: Vec<&str> = Target::ALL.iter().map(|t| t.as_str()).collect();
    assert_eq!(names, ["windows", "macos", "linux", "cloud"]);
    assert_eq!(Target::parse("Windows"), None);
}

#[test]
fn every_entry_is_found_by_id_and_name() {
    for c in catalog() {
        assert_eq!(find_check(c.id).unwrap().id, c.id);
        assert_eq!(find_check(&c.name.to_uppercase()).unwrap().id, c.id);
    }
    let severe: Vec<&str> = catalog()
        .iter()
        .filter(|c| c.severity == Severity::Error)
        .map(|c| c.id)
        .collect();
    assert_eq!(
        severe,
        ["NF001", "NF002", "NF003", "NF004", "NF006", "NF007", "NF010", "NF013"]
    );
}
