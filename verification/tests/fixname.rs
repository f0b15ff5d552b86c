//! Sanitizing names and planning renames.

use namefence::engine::Selection;
use namefence::fixname::{dedupe, plan, plan_dir, sanitize_name};
use namefence::rules::{find_check, Target};
use namefence::unicode::casefold_key;
use namefence::walker::{Entry, Walk, Walker};

fn san(bytes: &[u8]) -> String {
    sanitize_name(bytes, &Selection::all())
}

fn entry(name: &[u8]) -> Entry {
    Entry {
        name: name.to_vec(),
        is_dir: false,
    }
}

/// The entries of the directory `dir` in a tree given by its files.
fn listing(files: &[&[u8]], dir: &[Vec<u8>]) -> Vec<Entry> {
    let mut out: Vec<Entry> = Vec::new();
    for file in files {
        let parts: Vec<&[u8]> = file.split(|&b| b == b'/').collect();
        if parts.len() > dir.len() && dir.iter().zip(&parts).all(|(a, b)| a == b) {
            let name = parts[dir.len()].to_vec();
            let is_dir = parts.len() > dir.len() + 1;
            if !out.iter().any(|e| e.name == name) {
                out.push(Entry { name, is_dir });
            }
        }
    }
    out
}

fn walk(files: &[&[u8]]) -> Walk {
    let mut walker = Walker::new(1000);
    while let Some(dir) = walker.next_dir() {
        let entries = listing(files, dir);
        walker.take_listing(entries);
    }
    walker.finish()
}

#[test]
fn sanitize_merges_every_fix() {
    assert_eq!(san(b" report: v2. "), "report- v2");
    assert_eq!(san(b"aux. draft: "), "aux_. draft-");
    assert_eq!(san("cafe\u{0301}\n.txt".as_bytes()), "caf\u{00E9}.txt");
    assert_eq!(san(b"a<b>c*d?.log"), "a(b)cd.log");
    assert_eq!(san(b"..."), "_");
    assert_eq!(san(b"caf\xE9 menu.txt"), "caf_ menu.txt");
}

#[test]
fn sanitize_is_idempotent() {
    for name in [
        &b" aux: draft. "[..],
        "cafe\u{0301}.txt".as_bytes(),
        b"nul.tar.gz",
        b"ok.txt",
        "fee\u{200B}plan".as_bytes(),
    ] {
        let once = san(name);
        assert_eq!(san(once.as_bytes()), once, "not idempotent for {name:?}");
    }
}

#[test]
fn sanitize_leaves_clean_names_alone() {
    for name in [
        "README.md",
        ".gitignore",
        "caf\u{00E9}.txt",
        "写真 2024.jpg",
    ] {
        assert_eq!(san(name.as_bytes()), name);
    }
}

#[test]
fn sanitize_respects_selection() {
    // With only NF002 enabled, the trailing dot must survive.
    let sel = Selection::build(&[find_check("NF002").unwrap()], &[], &Target::ALL);
    assert_eq!(sanitize_name(b"a:b.", &sel), "a-b.");
}

#[test]
fn stage_order_catches_uncovered_reserved_names() {
    // "nul ." is not reserved as-is; after the trailing trim it becomes
    // "nul", which is. The reserved stage must run after the trim.
    assert_eq!(san(b"nul ."), "nul_");
    // Removing a control char can expose a reserved name too.
    assert_eq!(san(b"co\tn.txt"), "con_.txt");
}

#[test]
fn dedupe_bumps_before_the_extension() {
    let taken = vec![casefold_key("report.txt"), casefold_key("report-2.txt")];
    assert_eq!(dedupe("report.txt", &taken), "report-3.txt");
    assert_eq!(dedupe("fresh.txt", &taken), "fresh.txt");
}

#[test]
fn dedupe_is_case_and_normalization_insensitive() {
    let taken = vec![casefold_key("CAF\u{00C9}.txt")];
    // NFD lowercase collides with NFC uppercase: must bump.
    assert_eq!(dedupe("cafe\u{0301}.txt", &taken), "cafe\u{0301}-2.txt");
}

#[test]
fn plan_dir_keeps_first_and_renames_collisions() {
    let entries = vec![
        entry(b"README.md"),
        entry(b"ReadMe.md"),
        entry(b"readme.md"),
    ];
    let plan = plan_dir(&entries, &Selection::all());
    assert_eq!(plan.len(), 2);
    assert_eq!(plan[0], (1, "ReadMe-2.md".to_string()));
    assert_eq!(plan[1], (2, "readme-3.md".to_string()));
}

#[test]
fn plan_dir_never_steals_a_clean_siblings_name() {
    // "nul_" already exists and is clean; fixing "nul" must not take it.
    let entries = vec![entry(b"nul"), entry(b"nul_")];
    let plan = plan_dir(&entries, &Selection::all());
    assert_eq!(plan, vec![(0, "nul_-2".to_string())]);
}

#[test]
fn plan_dir_two_dirty_names_converging_get_distinct_targets() {
    // Both sanitize to "b": first (byte order) wins, second bumps.
    let entries = vec![entry(b"b "), entry(b"b.")];
    let plan = plan_dir(&entries, &Selection::all());
    assert_eq!(plan, vec![(0, "b".to_string()), (1, "b-2".to_string())]);
}

#[test]
fn a_tree_is_planned_deepest_first() {
    let tree = walk(&[b"sub dir./aux.txt", b"plain.txt"]);
    let renames = plan(&tree, &Selection::all());
    // Deepest first: the file inside "sub dir." renames before the dir.
    assert_eq!(renames.len(), 2);
    assert_eq!(renames[0].from_display, "aux.txt");
    assert_eq!(renames[0].to, "aux_.txt");
    assert_eq!(renames[0].reasons, ["NF001"]);
    assert_eq!(renames[0].dir, "sub dir.");
    assert_eq!(renames[0].dir_path, [b"sub dir.".to_vec()]);
    assert_eq!(renames[0].from, b"aux.txt");
    assert_eq!(renames[1].from_display, "sub dir.");
    assert_eq!(renames[1].to, "sub dir");
    assert_eq!(renames[1].dir, "");
    // A second plan on the fixed tree is empty: convergence.
    let fixed = walk(&[b"sub dir/aux_.txt", b"plain.txt"]);
    assert!(plan(&fixed, &Selection::all()).is_empty());
}

#[test]
fn renames_of_one_depth_go_by_directory_and_name() {
    let tree = walk(&[b"b/x.", b"a/z.", b"a/y.", b"q.", b"a/n/deep."]);
    let renames = plan(&tree, &Selection::all());
    let order: Vec<(&str, &str)> = renames
        .iter()
        .map(|r| (r.dir.as_str(), r.from_display.as_str()))
        .collect();
    assert_eq!(
        order,
        [("a/n", "deep."), ("a", "y."), ("a", "z."), ("b", "x."), ("", "q.")]
    );
}

#[test]
fn reasons_leave_advisory_checks_out() {
    let tree = walk(&[b"Thumbs.db", b"thumbs.db", b"~$a:b. "]);
    let renames = plan(&tree, &Selection::all());
    let reasons: Vec<(&str, &str, Vec<&str>)> = renames
        .iter()
        .map(|r| (r.from_display.as_str(), r.to.as_str(), r.reasons.clone()))
        .collect();
    assert_eq!(
        reasons,
        [
            ("thumbs.db", "thumbs-2.db", vec!["NF006/NF007"]),
            ("~$a:b. ", "~$a-b", vec!["NF002", "NF004"]),
        ]
    );
}

#[test]
fn collisions_are_left_alone_when_their_checks_are_off() {
    let a = find_check("NF006").unwrap();
    let b = find_check("NF007").unwrap();
    let off = Selection::build(&[], &[a, b], &Target::ALL);
    let entries = vec![entry(b"A"), entry(b"a"), entry(b"a.")];
    // The names that are clean stay, and a planned name still avoids them.
    assert_eq!(plan_dir(&entries, &off), vec![(2, "a-2".to_string())]);
    let one = Selection::build(&[], &[a], &Target::ALL);
    assert_eq!(
        plan_dir(&entries, &one),
        vec![(1, "a-2".to_string()), (2, "a-3".to_string())]
    );
}

#[test]
fn a_plan_converges() {
    let names: [&[u8]; 9] = [
        b" aux",
        b"AUX_",
        b"a:b",
        b"a-b",
        b"caf\xE9",
        "cafe\u{0301}".as_bytes(),
        "CAF\u{00C9}".as_bytes(),
        b"x.",
        b"x ",
    ];
    let mut entries: Vec<Entry> = names.iter().map(|n| entry(n)).collect();
    entries.sort_by(|a, b| a.name.cmp(&b.name));
    let sel = Selection::all();
    let first = plan_dir(&entries, &sel);
    assert!(!first.is_empty());
    for (i, to) in first {
        entries[i].name = to.into_bytes();
    }
    let keys: Vec<String> = entries
        .iter()
        .map(|e| casefold_key(std::str::from_utf8(&e.name).unwrap()))
        .collect();
    for (i, a) in keys.iter().enumerate() {
        assert!(keys[..i].iter().all(|b| a != b), "{a} is taken twice");
    }
    entries.sort_by(|a, b| a.name.cmp(&b.name));
    assert!(plan_dir(&entries, &sel).is_empty());
}

#[test]
fn long_names_are_bumped_within_the_budget() {
    // There is no room for a number behind the whole stem.
    let long = format!("{}.txt", "x".repeat(251));
    let taken = vec![casefold_key(&long)];
    let bumped = dedupe(&long, &taken);
    assert_eq!(bumped, format!("{}-2.txt", "x".repeat(249)));
    assert_eq!(bumped.len(), 255);
    // With a byte to spare, the cut leaves the dash, and that is a new name.
    let near = format!("{}.txt", "x".repeat(250));
    let bumped = dedupe(&near, &[casefold_key(&near)]);
    assert_eq!(bumped, format!("{}-.txt", "x".repeat(250)));
    // With room for one digit, the numbers count up.
    let roomy = format!("{}.txt", "x".repeat(249));
    let taken = vec![
        casefold_key(&roomy),
        casefold_key(&format!("{}-2.txt", "x".repeat(249))),
    ];
    assert_eq!(
        dedupe(&roomy, &taken),
        format!("{}-3.txt", "x".repeat(249))
    );
}

#[test]
fn two_long_names_that_collide_are_told_apart() {
    let upper = "X".repeat(255);
    let lower = "x".repeat(255);
    let entries = vec![entry(upper.as_bytes()), entry(lower.as_bytes())];
    let plan = plan_dir(&entries, &Selection::all());
    assert_eq!(plan, vec![(1, format!("{}-2", "x".repeat(253)))]);
}

#[test]
fn a_reserved_stem_without_room_is_cut() {
    // 255 bytes: no room for an underscore.
    let name = format!("aux.{}", "y".repeat(251));
    assert_eq!(san(name.as_bytes()), format!("au.{}", "y".repeat(251)));
    let ports = format!("com\u{00B9}.{}", "y".repeat(249));
    assert_eq!(san(ports.as_bytes()), format!("com.{}", "y".repeat(249)));
    let short = format!("aux.{}", "y".repeat(250));
    assert_eq!(san(short.as_bytes()), format!("aux_.{}", "y".repeat(250)));
}

#[test]
fn undecodable_names_get_the_other_fixes_when_their_check_is_off() {
    let off = Selection::build(&[], &[find_check("NF013").unwrap()], &Target::ALL);
    assert_eq!(sanitize_name(b"\xFF:", &off), "\u{FFFD}-");
    assert_eq!(sanitize_name("\u{FFFD}-".as_bytes(), &off), "\u{FFFD}-");
    let once = sanitize_name(b"a:\xE9", &off);
    assert_eq!(once, "a-\u{FFFD}");
    assert_eq!(sanitize_name(once.as_bytes(), &off), once);
    assert_eq!(san(b"\xFF:"), "_-");
    assert_eq!(san(b"a\xE2\x82.txt"), "a__.txt");
}

#[test]
fn path_syntax_and_nothing() {
    assert_eq!(san(b"."), ".");
    assert_eq!(san(b".."), "..");
    assert_eq!(san(b""), "_");
    assert_eq!(san(b" "), "_");
    assert_eq!(san(b"?"), "_");
}

#[test]
fn a_fixed_name_has_no_fixable_findings() {
    for name in [
        &b"aux"[..],
        b" lpt1 .txt",
        b"a\tb:c<d>e.",
        b"caf\xE9",
        "e\u{0301}\u{200B}\u{00A0}".as_bytes(),
        "\u{226E}\u{0338}x".as_bytes(),
        "\u{5199}".repeat(90).as_bytes(),
        "con\u{200B}.\u{00AD}".as_bytes(),
    ] {
        let once = san(name);
        let left = namefence::checks::check_component(once.as_bytes());
        assert!(left.iter().all(|f| f.fix.is_none()), "{once} is flagged");
    }
}

#[test]
fn a_plan_overwrites_nothing_and_stays_in_place() {
    let names: [&[u8]; 8] = [
        b"a-b",
        b"a:b",
        b"a|b",
        b"A-B",
        b"nul",
        b"nul_",
        "\u{2260}\u{2215}x ".as_bytes(),
        b"caf\xE9",
    ];
    let entries: Vec<Entry> = names.iter().map(|n| entry(n)).collect();
    let plan = plan_dir(&entries, &Selection::all());
    assert_eq!(plan.len(), 6);
    for (_, to) in &plan {
        assert!(names.iter().all(|n| *n != to.as_bytes()), "{to} exists");
        assert!(!to.contains('/'));
    }
}

#[test]
fn later_renames_are_not_inside_earlier_ones() {
    let tree = walk(&[b"a./b./c./d.", b"a./e.", b"f./g."]);
    let plan = plan(&tree, &Selection::all());
    assert_eq!(plan.len(), 7);
    for (i, first) in plan.iter().enumerate() {
        let mut path = first.dir_path.clone();
        path.push(first.from.clone());
        for later in &plan[i + 1..] {
            assert!(!later.dir_path.starts_with(&path));
        }
    }
}

#[test]
fn numbers_uncover_no_device_names() {
    // Numbering these leaves no room for the number, or cuts what is behind a dot.
    let long = format!("con-{}.txt", "x".repeat(247));
    let dots = format!("aux_.{}", "y".repeat(250));
    let names = [
        long.clone(),
        long.to_uppercase(),
        dots.clone(),
        dots.to_uppercase(),
        "NUL_".to_string(),
        "nul".to_string(),
    ];
    let entries: Vec<Entry> = names.iter().map(|n| entry(n.as_bytes())).collect();
    let sel = Selection::all();
    let plan = plan_dir(&entries, &sel);
    let mut after: Vec<String> = names.to_vec();
    for (i, to) in &plan {
        after[*i] = to.clone();
    }
    let mut after: Vec<Entry> = after.iter().map(|n| entry(n.as_bytes())).collect();
    after.sort_by(|a, b| a.name.cmp(&b.name));
    assert!(plan_dir(&after, &sel).is_empty());
}
