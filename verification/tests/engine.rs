//! Scans of trees and of path lists.

use namefence::engine::{
    scan, scan_paths, scan_paths_with, ScanResult, Selection, DEFAULT_MAX_FILES, DEFAULT_MAX_PATH,
};
use namefence::rules::{find_check, Target};
use namefence::walker::{Entry, Walk, Walker};

/// The entries of the directory `dir` in a tree given by its files.
fn listing(files: &[&str], dir: &[Vec<u8>]) -> Vec<Entry> {
    let mut out: Vec<Entry> = Vec::new();
    for file in files {
        let parts: Vec<&[u8]> = file.as_bytes().split(|&b| b == b'/').collect();
        if parts.len() > dir.len() && dir.iter().zip(&parts).all(|(a, b)| a == b) {
            let name = parts[dir.len()].to_vec();
            let is_dir = parts.len() > dir.len() + 1;
            if !out.iter().any(|e| e.name == name) {
                out.push(Entry { name, is_dir });
            }
        }
    }
    out.reverse();
    out
}

fn walk(files: &[&str], max_files: usize) -> Walk {
    let mut walker = Walker::new(max_files);
    while let Some(dir) = walker.next_dir() {
        let entries = listing(files, dir);
        walker.take_listing(entries);
    }
    walker.finish()
}

fn ids(result: &ScanResult) -> Vec<(&str, &str)> {
    result
        .findings
        .iter()
        .map(|f| (f.path.as_str(), f.check.id))
        .collect()
}

#[test]
fn scan_finds_and_orders_everything() {
    let tree = walk(
        &["aux.txt", "sub/README.md", "sub/readme.md", "z:report.csv"],
        DEFAULT_MAX_FILES,
    );
    let result = scan(&tree, &Selection::all());
    assert_eq!(
        ids(&result),
        [
            ("aux.txt", "NF001"),
            ("sub/readme.md", "NF006"),
            ("z:report.csv", "NF002"),
        ]
    );
    assert_eq!(result.stats.errors, 3);
    assert_eq!(result.stats.files, 4);
    assert_eq!(result.stats.dirs, 1);
}

#[test]
fn selection_by_target_and_skip() {
    let tree = walk(&["aux.txt", "thumbs.db"], DEFAULT_MAX_FILES);

    let only_macos = Selection::build(&[], &[], &[Target::Macos]);
    let result = scan(&tree, &only_macos);
    assert!(result.findings.is_empty(), "macos target must mute both");

    let cloud = Selection::build(&[], &[], &[Target::Cloud]);
    let result = scan(&tree, &cloud);
    assert_eq!(result.findings.len(), 2);

    let skip = Selection::build(&[], &[find_check("NF012").unwrap()], &Target::ALL);
    let result = scan(&tree, &skip);
    assert_eq!(ids(&result), [("aux.txt", "NF001")]);
}

#[test]
fn nested_deep_path_reports_shallowest_offender_only() {
    let mut sel = Selection::all();
    sel.max_path = 20;
    let tree = walk(&["a-very-long-directory/child/f.txt"], DEFAULT_MAX_FILES);
    let result = scan(&tree, &sel);
    let nf011: Vec<&str> = result
        .findings
        .iter()
        .filter(|f| f.check.id == "NF011")
        .map(|f| f.path.as_str())
        .collect();
    // The directory itself (21 units > 20) blows the budget; its
    // descendants are implied, not spammed.
    assert_eq!(nf011, ["a-very-long-directory"]);
}

#[test]
fn scan_paths_groups_by_parent_for_collisions() {
    let paths: Vec<Vec<u8>> = vec![
        b"docs/Readme.md".to_vec(),
        b"docs/readme.md".to_vec(),
        b"src/readme.md".to_vec(), // different directory: no collision
        b"src/aux.rs".to_vec(),
    ];
    let result = scan_paths(&paths);
    assert_eq!(
        ids(&result),
        [("docs/readme.md", "NF006"), ("src/aux.rs", "NF001")]
    );
    assert_eq!(result.stats.files, 4);
}

#[test]
fn scan_paths_checks_directory_components_once() {
    let paths: Vec<Vec<u8>> = vec![
        b"bad dir./a.txt".to_vec(),
        b"bad dir./b.txt".to_vec(),
        b"./normal/c.txt".to_vec(),
    ];
    let result = scan_paths(&paths);
    let nf004: Vec<&str> = result
        .findings
        .iter()
        .filter(|f| f.check.id == "NF004")
        .map(|f| f.path.as_str())
        .collect();
    assert_eq!(nf004, ["bad dir."], "directory flagged exactly once");
}

#[test]
fn scan_paths_with_custom_budget() {
    let mut sel = Selection::all();
    sel.max_path = 10;
    let paths: Vec<Vec<u8>> = vec![b"a/very/deep/path.txt".to_vec()];
    let result = scan_paths_with(&paths, &sel);
    assert!(result.findings.iter().any(|f| f.check.id == "NF011"));
}

#[test]
fn path_lists_report_the_shallowest_offender_only() {
    let mut sel = Selection::all();
    sel.max_path = 10;
    let paths: Vec<Vec<u8>> = vec![
        b"a/very/deep/path.txt".to_vec(),
        b"a/very/deep/other.txt".to_vec(),
    ];
    let result = scan_paths_with(&paths, &sel);
    assert_eq!(ids(&result), [("a/very/deep", "NF011")]);
    assert_eq!(
        result.findings[0].message,
        "relative path is 11 UTF-16 units, over the --max-path budget of 10; Win32 MAX_PATH \
counts 260 for the absolute path"
    );
}

#[test]
fn a_selection_only_filters_findings() {
    let paths: Vec<Vec<u8>> = vec![
        b"aux.txt".to_vec(),
        b"b:c".to_vec(),
        b"thumbs.db".to_vec(),
        b"d/x.".to_vec(),
        b"d/X.".to_vec(),
    ];
    let sel = Selection::build(&[], &[find_check("NF004").unwrap()], &[Target::Windows]);
    let all = scan_paths(&paths);
    let some = scan_paths_with(&paths, &sel);
    let expected: Vec<(&str, &str)> = ids(&all)
        .into_iter()
        .filter(|(_, id)| sel.is_enabled(find_check(id).unwrap()))
        .collect();
    assert_eq!(ids(&some), expected);
    assert_eq!(
        ids(&some),
        [("aux.txt", "NF001"), ("b:c", "NF002"), ("d/x.", "NF006")]
    );
}

#[test]
fn empty_paths_and_path_syntax_are_passed_over() {
    let paths: Vec<Vec<u8>> = vec![
        b"".to_vec(),
        b"./a//b/".to_vec(),
        b"a/b".to_vec(),
        b"../c".to_vec(),
    ];
    let result = scan_paths(&paths);
    assert!(result.findings.is_empty());
    assert_eq!(result.stats.files, 3);
    assert_eq!(result.stats.dirs, 0);
    assert!(!result.stats.truncated);
}

#[test]
fn findings_of_one_path_are_in_catalog_order() {
    let result = scan_paths(&[b"aux. draft: ".to_vec(), b"AUX. DRAFT: ".to_vec()]);
    assert_eq!(
        ids(&result),
        [
            ("AUX. DRAFT: ", "NF001"),
            ("AUX. DRAFT: ", "NF002"),
            ("AUX. DRAFT: ", "NF004"),
            ("aux. draft: ", "NF001"),
            ("aux. draft: ", "NF002"),
            ("aux. draft: ", "NF004"),
            ("aux. draft: ", "NF006"),
        ]
    );
    assert_eq!(result.stats.errors, 7);
    assert_eq!(result.stats.warnings, 0);
}

#[test]
fn the_selection_of_everything_has_the_defaults() {
    let sel = Selection::all();
    assert_eq!(sel.enabled, vec![true; 13]);
    assert_eq!(sel.max_path, DEFAULT_MAX_PATH);
    assert_eq!(sel.max_files, DEFAULT_MAX_FILES);
    assert_eq!(DEFAULT_MAX_PATH, 240);
    assert_eq!(DEFAULT_MAX_FILES, 200_000);
}

#[test]
fn only_and_skip_combine() {
    let a = find_check("NF001").unwrap();
    let b = find_check("NF002").unwrap();
    let sel = Selection::build(&[a, b], &[b], &Target::ALL);
    let on: Vec<usize> = (0..13).filter(|&k| sel.enabled[k]).collect();
    assert_eq!(on, [0]);
    let linux = Selection::build(&[], &[], &[Target::Linux]);
    let on: Vec<usize> = (0..13).filter(|&k| linux.enabled[k]).collect();
    assert_eq!(on, [8, 9]);
}

#[test]
fn undecodable_names_are_listed_with_their_directory() {
    let result = scan_paths(&[b"d\xFF/caf\xE9".to_vec()]);
    assert_eq!(
        ids(&result),
        [("d\u{FFFD}", "NF013"), ("d\u{FFFD}/caf\u{FFFD}", "NF013")]
    );
    assert_eq!(result.findings[0].fix.as_deref(), Some("d_"));
    assert_eq!(result.findings[1].fix.as_deref(), Some("caf_"));
}

#[test]
fn directories_are_told_apart_by_their_raw_names() {
    let result = scan_paths(&[b"\xE9/a.txt".to_vec(), b"\xE8/A.txt".to_vec()]);
    assert_eq!(ids(&result), [("\u{FFFD}", "NF013"), ("\u{FFFD}", "NF013")]);
    let one = scan_paths(&[b"\xE9/a.txt".to_vec(), b"\xE9/A.txt".to_vec()]);
    assert_eq!(
        ids(&one),
        [("\u{FFFD}", "NF013"), ("\u{FFFD}/a.txt", "NF006")]
    );
}

#[test]
fn order_repeats_and_extra_slashes_do_not_matter() {
    let a = [&b"docs/Readme.md"[..], b"docs/readme.md", b"aux", b"x./y."];
    let b = [
        &b"./x.//y./"[..],
        b"aux",
        b"/docs/./readme.md",
        b"",
        b"docs/Readme.md",
        b"aux/",
    ];
    let one = scan_paths(&a.map(|p| p.to_vec()));
    let other = scan_paths(&b.map(|p| p.to_vec()));
    assert_eq!(ids(&one), ids(&other));
    assert_eq!(one.findings.len(), 4);
    for (f, g) in one.findings.iter().zip(&other.findings) {
        assert_eq!(f.message, g.message);
        assert_eq!(f.fix, g.fix);
    }
    assert_eq!((one.stats.files, other.stats.files), (4, 5));
}

#[test]
fn a_budget_changes_only_the_lengths() {
    let paths = [b"aux/x:y".to_vec(), b"a.".to_vec(), b"A.".to_vec()];
    let full = scan_paths(&paths);
    let mut sel = Selection::build(&[], &[find_check("NF002").unwrap()], &Target::ALL);
    sel.max_path = 3;
    let some = scan_paths_with(&paths, &sel);
    let expected: Vec<(&str, &str)> = ids(&full)
        .into_iter()
        .filter(|f| f.1 != "NF002")
        .collect();
    let found: Vec<(&str, &str)> = ids(&some)
        .into_iter()
        .filter(|f| f.1 != "NF011")
        .collect();
    assert_eq!(found, expected);
    assert!(ids(&some).contains(&("aux/x:y", "NF011")));
}
