//! Arguments, input and replies.

use namefence::checks::check_component;
use namefence::cli::{
    checks_reply, explain_reply, help_reply, parse, plan_reply, report_reply, split_stdin,
    usage_error, version_reply, Command, Format, Opts, Reply,
};
use namefence::engine::{
    scan, scan_paths_with, ScanResult, DEFAULT_MAX_FILES, DEFAULT_MAX_PATH,
};
use namefence::fixname::{plan, Rename};
use namefence::report::FailOn;
use namefence::rules::Target;
use namefence::run::{
    after_input, after_renames, after_walk, first_step, next_rename, refusal, RenameStep, Step,
};
use namefence::walker::{Entry, Walk, Walker};

fn args(list: &[&str]) -> Vec<Vec<u8>> {
    list.iter().map(|a| a.as_bytes().to_vec()).collect()
}

fn err(list: &[&str]) -> String {
    match parse(&args(list)) {
        Err(e) => e,
        Ok(_) => panic!("expected `{list:?}` to be rejected"),
    }
}

fn command(list: &[&str]) -> Command {
    match parse(&args(list)) {
        Ok(c) => c,
        Err(e) => panic!("`{list:?}` was rejected: {e}"),
    }
}

/// The entries of the directory `dir` in a tree given by its files.
fn listing(files: &[&[u8]], dir: &[Vec<u8>]) -> Vec<Entry> {
    let mut out: Vec<Entry> = Vec::new();
    for file in files {
        let parts: Vec<&[u8]> = file.split(|&b| b == b'/').collect();
        if parts.len() > dir.len() && dir.iter().zip(&parts).all(|(a, b)| a == b) {
            let name = parts[dir.len()].to_vec();
            let is_dir = parts.len() > dir.len() + 1;
            if !out.iter().any(|e| e.name == name) {
                out.push(Entry { name, is_dir });
            }
        }
    }
    out
}

fn walk(files: &[&[u8]]) -> Walk {
    let mut walker = Walker::new(DEFAULT_MAX_FILES);
    while let Some(dir) = walker.next_dir() {
        let entries = listing(files, dir);
        walker.take_listing(entries);
    }
    walker.finish()
}

/// One of several classic sync killers.
fn fixture() -> Walk {
    walk(&[
        b"aux.txt",
        b"report:final.csv",
        b"notes. ",
        b"docs/README.md",
        b"docs/readme.md",
        "photos/cafe\u{0301}.jpg".as_bytes(),
        b"clean/plain.txt",
    ])
}

fn check(tree: &Walk, list: &[&str]) -> (String, i32) {
    match command(list) {
        Command::Check { opts, .. } => {
            let result: ScanResult = scan(tree, &opts.selection());
            let reply = report_reply("tree", &result, opts.format, opts.fail_on);
            assert_eq!(reply.err, "");
            (reply.out, reply.code)
        }
        _ => panic!("expected check"),
    }
}

fn stdin(list: &[&str], input: &[u8]) -> (String, i32) {
    match command(list) {
        Command::Stdin { opts, null } => {
            let paths = split_stdin(input, null);
            let result = scan_paths_with(&paths, &opts.selection());
            let reply = report_reply("<stdin>", &result, opts.format, opts.fail_on);
            (reply.out, reply.code)
        }
        _ => panic!("expected stdin"),
    }
}

#[test]
fn no_arguments_means_help() {
    assert!(matches!(command(&[]), Command::Help));
    assert!(matches!(command(&["--help"]), Command::Help));
}

#[test]
fn check_defaults() {
    let Command::Check { path, opts } = command(&["check"]) else {
        panic!("expected check");
    };
    assert_eq!(path, b".");
    assert_eq!(opts.format, Format::Text);
    assert_eq!(opts.fail_on, FailOn::Warning);
    assert_eq!(opts.max_path, DEFAULT_MAX_PATH);
    assert_eq!(opts.max_files, DEFAULT_MAX_FILES);
    assert_eq!(opts.targets.len(), 4);
    assert!(opts.only.is_empty() && opts.skip.is_empty());
    assert_eq!(Opts::default().targets, Target::ALL.to_vec());
}

#[test]
fn full_flag_soup_parses() {
    let Command::Check { path, opts } = command(&[
        "check",
        "--format",
        "json",
        "--fail-on",
        "error",
        "--only",
        "NF001,case-collision",
        "--skip",
        "NF012",
        "--targets",
        "windows,cloud",
        "--max-path",
        "120",
        "--max-files",
        "50",
        "some/dir",
    ]) else {
        panic!("expected check");
    };
    assert_eq!(path, b"some/dir");
    assert_eq!(opts.format, Format::Json);
    assert_eq!(opts.fail_on, FailOn::Error);
    assert_eq!(opts.only.len(), 2);
    assert_eq!(opts.only[1].id, "NF006");
    assert_eq!(opts.skip[0].id, "NF012");
    assert_eq!(opts.targets, vec![Target::Windows, Target::Cloud]);
    assert_eq!(opts.max_path, 120);
    assert_eq!(opts.max_files, 50);
    let sel = opts.selection();
    assert_eq!(sel.max_path, 120);
    assert_eq!(sel.max_files, 50);
    let on: Vec<usize> = (0..13).filter(|&k| sel.enabled[k]).collect();
    assert_eq!(on, [0, 5]);
}

#[test]
fn errors_are_specific() {
    assert!(err(&["frobnicate"]).contains("unknown command"));
    assert!(err(&["check", "--only", "NF999"]).contains("unknown check `NF999`"));
    assert!(err(&["check", "--targets", "solaris"]).contains("unknown target"));
    assert!(err(&["check", "--max-path", "many"]).contains("needs a number"));
    assert!(err(&["check", "--format"]).contains("needs a value"));
    assert!(err(&["check", "a", "b"]).contains("extra argument"));
    assert!(err(&["explain"]).contains("needs a check"));
}

#[test]
fn each_error_has_its_exact_text() {
    assert_eq!(err(&["frob"]), "unknown command `frob` (see --help)");
    assert_eq!(
        err(&["explain"]),
        "explain needs a check ID or name, e.g. `namefence explain NF006`"
    );
    assert_eq!(
        err(&["check", "--format", "yaml"]),
        "unknown format `yaml` (text or json)"
    );
    assert_eq!(
        err(&["check", "--fail-on", "maybe"]),
        "unknown --fail-on `maybe` (error, warning, info, never)"
    );
    assert_eq!(
        err(&["check", "--skip", " NF001 , nope "]),
        "unknown check `nope` (see `namefence checks`)"
    );
    assert_eq!(err(&["check", "--only", " , "]), "empty check list");
    assert_eq!(
        err(&["check", "--targets", "linux,bsd"]),
        "unknown target `bsd` (expected windows, macos, linux or cloud)"
    );
    assert_eq!(err(&["check", "--targets", ""]), "empty target list");
    assert_eq!(
        err(&["fix", "--max-files", "-1"]),
        "--max-files needs a number, got `-1`"
    );
    assert_eq!(err(&["stdin", "--only"]), "--only needs a value");
    assert_eq!(
        err(&["fix", "-0"]),
        "unknown option `-0` for `fix` (see --help)"
    );
    assert_eq!(
        err(&["stdin", "x"]),
        "stdin reads paths from standard input, not arguments"
    );
    assert_eq!(err(&["fix", "x", "y"]), "unexpected extra argument `y`");
}

#[test]
fn apply_and_null_are_command_scoped() {
    assert!(matches!(
        command(&["fix", "--apply"]),
        Command::Fix { apply: true, .. }
    ));
    assert!(err(&["check", "--apply"]).contains("unknown option"));
    assert!(matches!(
        command(&["stdin", "-0"]),
        Command::Stdin { null: true, .. }
    ));
    assert!(err(&["check", "-0"]).contains("unknown option"));
}

#[test]
fn numbers_are_read_as_usize() {
    let read = |v: &str| match parse(&args(&["check", "--max-path", v])) {
        Ok(Command::Check { opts, .. }) => Some(opts.max_path),
        _ => None,
    };
    for v in [
        "0",
        "7",
        "+7",
        "007",
        "",
        "+",
        "-0",
        "++1",
        " 1",
        "1 ",
        "1e3",
        "18446744073709551615",
        "18446744073709551616",
        "99999999999999999999999999999999999999999999999999",
        "\u{0661}",
    ] {
        assert_eq!(read(v), v.parse::<usize>().ok(), "{v}");
    }
}

#[test]
fn list_items_are_trimmed_of_white_space() {
    let Command::Check { opts, .. } = command(&[
        "check",
        "--only",
        "\u{3000}NF001\t,,\u{00A0}non-nfc\u{2028},",
    ]) else {
        panic!("expected check");
    };
    let ids: Vec<&str> = opts.only.iter().map(|c| c.id).collect();
    assert_eq!(ids, ["NF001", "NF008"]);
    // Exactly what the standard library trims.
    for cp in 0..0x11_0000u32 {
        if let Some(c) = char::from_u32(cp) {
            if c != ',' && (cp < 0x400 || c.is_whitespace() || cp % 97 == 0) {
                let list = format!("{c}NF001{c}");
                let ok = parse(&args(&["check", "--only", &list])).is_ok();
                assert_eq!(ok, c.is_whitespace(), "U+{cp:04X}");
            }
        }
    }
}

#[test]
fn paths_stay_raw_bytes() {
    let list = vec![b"check".to_vec(), b"d\xFF".to_vec()];
    match parse(&list) {
        Ok(Command::Check { path, .. }) => assert_eq!(path, b"d\xFF"),
        _ => panic!("expected check"),
    }
}

#[test]
fn stdin_splitting_modes() {
    assert_eq!(
        split_stdin(b"a.txt\nb.txt\r\n\nc/d.txt\n", false),
        vec![b"a.txt".to_vec(), b"b.txt".to_vec(), b"c/d.txt".to_vec()]
    );
    // NUL mode keeps \n and \r as name bytes — that is the point of -0.
    assert_eq!(
        split_stdin(b"a\nb\0c\0", true),
        vec![b"a\nb".to_vec(), b"c".to_vec()]
    );
}

#[test]
fn stdin_splitting_at_the_ends() {
    assert!(split_stdin(b"", false).is_empty());
    assert!(split_stdin(b"\r\n\n", false).is_empty());
    assert_eq!(split_stdin(b"a\r\r\n", false), vec![b"a\r".to_vec()]);
    assert_eq!(split_stdin(b"a\r\0\0b", true), vec![b"a\r".to_vec(), b"b".to_vec()]);
}

#[test]
fn version_matches_manifest() {
    let reply = version_reply();
    assert_eq!(reply.code, 0);
    assert_eq!(reply.out.trim(), format!("namefence {}", namefence::VERSION));
    assert_eq!(reply.out, "namefence 0.1.0\n");
}

#[test]
fn help_lists_commands_and_exits_zero() {
    for invocation in [vec!["--help"], vec!["help"], vec![]] {
        assert!(matches!(command(&invocation), Command::Help));
        let reply = help_reply();
        assert_eq!(reply.code, 0);
        assert!(reply.out.contains("COMMANDS:"));
        assert!(reply.out.contains("EXIT CODES:"));
        for cmd in ["check", "fix", "stdin", "checks", "explain"] {
            assert!(reply.out.contains(cmd), "help missing `{cmd}`");
        }
    }
}

#[test]
fn checks_catalog_lists_all_thirteen() {
    assert!(matches!(command(&["checks"]), Command::Checks));
    let reply = checks_reply();
    assert_eq!(reply.code, 0);
    let text = reply.out;
    let count = text.lines().filter(|l| l.starts_with("NF0")).count();
    assert_eq!(count, 13);
    assert!(text.contains("windows-reserved-name"));
    assert!(text.contains("normalization-collision"));
    assert!(text.contains("[cloud]"));
    assert!(text.contains(
        "NF008 warning non-nfc                   [macos, cloud]\n      name is not in NFC form"
    ));
}

#[test]
fn explain_accepts_id_and_name_rejects_unknown() {
    let by_id = explain_reply("NF008");
    assert_eq!(by_id.code, 0);
    assert!(by_id.out.contains("NFC"));
    assert!(by_id
        .out
        .starts_with("NF008 (non-nfc) — severity warning — breaks on: macos, cloud\n\nLinux and"));
    let by_name = explain_reply("non-nfc");
    assert_eq!(by_name.out, by_id.out);

    let bad = explain_reply("NF042");
    assert_eq!(bad.code, 2);
    assert_eq!(bad.out, "");
    assert_eq!(
        bad.err,
        "namefence: unknown check `NF042` (see `namefence checks`)\n"
    );
    match command(&["explain", "nf008", "ignored"]) {
        Command::Explain { key } => assert_eq!(key, "nf008"),
        _ => panic!("expected explain"),
    }
}

#[test]
fn check_finds_the_classics_and_exits_one() {
    let (text, code) = check(&fixture(), &["check", "tree"]);
    assert_eq!(code, 1);
    assert!(text.contains("aux.txt: error NF001 (windows-reserved-name)"));
    assert!(text.contains("fix: rename to `aux_.txt`"));
    assert!(text.contains("report:final.csv: error NF002"));
    assert!(text.contains("fix: rename to `report-final.csv`"));
    assert!(text.contains("notes. : error NF004"));
    assert!(text.contains("docs/readme.md: error NF006"));
    assert!(text.contains("collides with sibling `README.md`"));
    assert!(text.contains("photos/cafe\u{0301}.jpg: warning NF008"));
    assert!(text.contains("findings: 5 — 4 error(s), 1 warning(s), 0 info"));
    assert!(text.contains("7 file(s), 3 directory(ies) scanned"));
}

#[test]
fn clean_tree_exits_zero() {
    let tree = walk(&[b"src/main.rs", b"README.md"]);
    let (text, code) = check(&tree, &["check", "tree"]);
    assert_eq!(code, 0);
    assert!(text.starts_with("findings: none"));
}

#[test]
fn fail_on_policy_tunes_the_exit_code() {
    let tree = walk(&["photos/cafe\u{0301}.jpg".as_bytes()]);
    assert_eq!(check(&tree, &["check", "p"]).1, 1);
    assert_eq!(check(&tree, &["check", "--fail-on", "error", "p"]).1, 0);
    assert_eq!(check(&tree, &["check", "--fail-on", "never", "p"]).1, 0);
    assert_eq!(check(&tree, &["check", "--fail-on", "info", "p"]).1, 1);
}

#[test]
fn only_skip_and_targets_select_checks() {
    let tree = fixture();
    let (text, _) = check(&tree, &["check", "--only", "NF001", "p"]);
    assert!(text.contains("NF001") && !text.contains("NF006"));

    let (text, _) = check(&tree, &["check", "--skip", "NF001,NF002,NF004,NF006", "p"]);
    assert!(!text.contains("NF001") && text.contains("NF008"));

    // Linux target: none of the fixture's problems break on pure Linux.
    let (text, code) = check(&tree, &["check", "--targets", "linux", "p"]);
    assert_eq!(code, 0);
    assert!(text.starts_with("findings: none"));
}

#[test]
fn json_output_is_machine_readable() {
    let (json, code) = check(&fixture(), &["check", "--format", "json", "tree"]);
    assert_eq!(code, 1);
    assert!(json.contains("\"tool\": \"namefence\""));
    assert!(json.contains(&format!("\"version\": \"{}\"", namefence::VERSION)));
    assert!(json.contains("\"root\": \"tree\""));
    assert!(json.contains(
        "\"check\": \"NF001\", \"name\": \"windows-reserved-name\", \"severity\": \"error\""
    ));
    assert!(json.contains("\"fix\": \"aux_.txt\""));
    assert!(json.contains("\"stats\": {\"files\": 7, \"dirs\": 3, \"errors\": 4, \"warnings\": 1, \"infos\": 0, \"truncated\": false}"));
}

/// The tree after its planned renames, which are carried out in order.
fn carried_out(tree: &Walk, renames: &[Rename]) -> Walk {
    let mut files: Vec<Vec<Vec<u8>>> = Vec::new();
    for dir in &tree.dirs {
        for e in &dir.entries {
            if !e.is_dir {
                let mut path = dir.rel_path.clone();
                path.push(e.name.clone());
                files.push(path);
            }
        }
    }
    for r in renames {
        let mut moved = 0;
        for path in &mut files {
            let n = r.dir_path.len();
            if path.len() > n && path[..n] == r.dir_path[..] && path[n] == r.from {
                path[n] = r.to.as_bytes().to_vec();
                moved += 1;
            }
        }
        assert!(moved > 0, "{} is gone", r.from_display);
    }
    let joined: Vec<Vec<u8>> = files.iter().map(|p| p.join(&b'/')).collect();
    let refs: Vec<&[u8]> = joined.iter().map(|p| p.as_slice()).collect();
    walk(&refs)
}

#[test]
fn fix_plans_without_touching_and_applies_on_request() {
    let tree = fixture();
    let Command::Fix { opts, apply, .. } = command(&["fix", "tree"]) else {
        panic!("expected fix");
    };
    let renames = plan(&tree, &opts.selection());
    let dry = plan_reply("tree", &renames, opts.format, apply);
    assert_eq!(dry.code, 1, "unapplied plan gates CI");
    assert!(dry
        .out
        .contains("would rename `aux.txt` -> `aux_.txt`  (NF001)"));
    assert!(dry
        .out
        .contains("would rename `docs/readme.md` -> `readme-2.md`  (NF006/NF007)"));
    assert!(dry.out.contains("re-run with --apply"));

    let wet = plan_reply("tree", &renames, opts.format, true);
    assert_eq!(wet.code, 0);
    assert!(wet.out.contains("renamed `aux.txt` -> `aux_.txt`"));
    assert!(wet.out.contains("applied 5 rename(s)"));

    // The fixed tree is clean and a second fix is a no-op: convergence.
    let fixed = carried_out(&tree, &renames);
    assert_eq!(check(&fixed, &["check", "p"]).1, 0);
    let again = plan(&fixed, &opts.selection());
    let reply = plan_reply("tree", &again, opts.format, false);
    assert_eq!(reply.code, 0);
    assert!(reply.out.contains("nothing to fix"));
}

#[test]
fn fix_json_plan_shape() {
    let tree = walk(&[b"nul.log"]);
    let Command::Fix { opts, .. } = command(&["fix", "--format", "json", "tree"]) else {
        panic!("expected fix");
    };
    let renames = plan(&tree, &opts.selection());
    let json = plan_reply("tree", &renames, opts.format, false).out;
    assert!(json.contains("\"applied\": false"));
    assert!(json.contains(
        "{\"dir\": \"\", \"from\": \"nul.log\", \"to\": \"nul_.log\", \"reasons\": [\"NF001\"]}"
    ));
}

#[test]
fn stdin_checks_git_ls_files_style_input() {
    let input = b"docs/Readme.md\ndocs/readme.md\nsrc/aux.rs\nclean.txt\n";
    let (text, code) = stdin(&["stdin"], input);
    assert_eq!(code, 1);
    assert!(text.contains("docs/readme.md: error NF006"));
    assert!(text.contains("src/aux.rs: error NF001"));
    assert!(!text.contains("clean.txt:"));
    assert!(text.contains("4 file(s)"));
}

#[test]
fn stdin_null_mode_preserves_newlines_in_names() {
    // A filename containing a real newline arrives intact only with -0.
    let (text, code) = stdin(&["stdin", "-0"], b"bad\nname.txt\0ok.txt\0");
    assert_eq!(code, 1);
    assert!(
        text.contains("NF003"),
        "control character finding expected: {text}"
    );
    assert!(text.contains("2 file(s)"));
}

#[test]
fn stdin_respects_max_path_budget() {
    let long = format!("{}/leaf.txt\n", "d".repeat(300));
    let (over, _) = stdin(&["stdin", "--max-path", "200"], long.as_bytes());
    assert!(over.contains("NF011"));
    let (under, _) = stdin(&["stdin", "--max-path", "400"], long.as_bytes());
    assert!(!under.contains("NF011"));
}

/// The reply of a run, given what its walk, its reading and its renaming come to.
fn run(
    list: &[&str],
    tree: Result<Walk, String>,
    input: Result<Vec<u8>, String>,
    done: Result<(), String>,
) -> Reply {
    match first_step(&args(list)) {
        Step::Done(reply) => reply,
        Step::Walk(job, goal) => match after_walk(job, goal, tree) {
            Step::Done(reply) => reply,
            Step::Rename(job, renames) => after_renames(job, renames, done),
            _ => panic!("neither a reply nor renames"),
        },
        Step::Read(job, null) => after_input(job, null, input),
        Step::Rename(_, _) => panic!("nothing was walked"),
    }
}

/// The reply of a run that reads and renames nothing.
fn run_on(list: &[&str], tree: Result<Walk, String>) -> Reply {
    run(list, tree, Err("unread".to_string()), Err("unmoved".to_string()))
}

#[test]
fn io_and_usage_errors_exit_two() {
    let missing = run_on(
        &["check", "/definitely/not/a/dir"],
        Err("No such file or directory (os error 2)".to_string()),
    );
    assert_eq!(missing.code, 2);
    assert_eq!(
        missing.err,
        "namefence: /definitely/not/a/dir: No such file or directory (os error 2)\n"
    );
    assert_eq!(missing.out, "");

    let usage = run_on(&["check", "--format", "yaml"], Ok(walk(&[])));
    assert_eq!(usage.code, 2);
    assert!(usage.err.contains("unknown format"));

    let unknown = run_on(&["defragment"], Ok(walk(&[])));
    assert_eq!(unknown.code, 2);
    assert!(unknown.err.contains("unknown command"));
    assert_eq!(
        usage_error("unknown command").err,
        "namefence: unknown command\n"
    );

    let input = run(&["stdin"], Ok(walk(&[])), Err("closed".to_string()), Ok(()));
    assert_eq!(input.code, 2);
    assert_eq!(input.err, "namefence: reading stdin: closed\n");

    let plan = run_on(&["fix", "d"], Err("denied".to_string()));
    assert_eq!((plan.code, plan.err.as_str()), (2, "namefence: d: denied\n"));

    let renames = run_on(&["fix", "--apply", "d"], Ok(walk(&[b"aux"])));
    assert_eq!(renames.code, 2);
    assert_eq!(renames.err, "namefence: applying renames: unmoved\n");
}

#[test]
fn runs_exit_by_what_they_find() {
    let dirty = || Ok(walk(&[b"aux", b" x"]));
    let clean = || Ok(walk(&[b"x"]));
    assert_eq!(run_on(&["check"], dirty()).code, 1);
    assert_eq!(run_on(&["check"], clean()).code, 0);
    assert_eq!(run_on(&["check", "--fail-on", "never"], dirty()).code, 0);
    assert_eq!(
        run_on(&["check", "--only", "NF005", "--fail-on", "error"], dirty()).code,
        0
    );
    assert_eq!(run_on(&["fix"], dirty()).code, 1);
    assert_eq!(run_on(&["fix"], clean()).code, 0);
    let nothing = || Err("unread".to_string());
    assert_eq!(run(&["fix", "--apply"], dirty(), nothing(), Ok(())).code, 0);
    let list = run(&["stdin", "-0"], clean(), Ok(b"a\0aux".to_vec()), Ok(()));
    assert_eq!(list.code, 1);
    assert!(list.out.contains("aux: error NF001"));
    assert_eq!(run(&["stdin"], clean(), Ok(Vec::new()), Ok(())).code, 0);
    let json = run(
        &["stdin", "--format", "json"],
        clean(),
        Ok(Vec::new()),
        Ok(()),
    );
    assert!(json.out.contains("\"root\": \"<stdin>\""));
}

#[test]
fn only_a_fix_that_is_applied_renames() {
    for (list, renames) in [
        (&["check"][..], false),
        (&["fix"], false),
        (&["fix", "--apply"], true),
    ] {
        let Step::Walk(job, goal) = first_step(&args(list)) else {
            panic!("expected a walk");
        };
        let next = after_walk(job, goal, Ok(walk(&[b"aux"])));
        assert_eq!(matches!(next, Step::Rename(_, _)), renames);
    }
}

#[test]
fn renames_refuse_to_overwrite() {
    let Step::Walk(job, goal) = first_step(&args(&["fix", "--apply"])) else {
        panic!("expected a walk");
    };
    let Step::Rename(_, renames) = after_walk(job, goal, Ok(walk(&[b"report.", b"aux"]))) else {
        panic!("expected renames");
    };
    assert_eq!(renames.len(), 2);
    assert_eq!(next_rename(&renames, 0, false), RenameStep::Move(0));
    assert_eq!(next_rename(&renames, 1, true), RenameStep::Refuse(1));
    assert_eq!(next_rename(&renames, 1, false), RenameStep::Move(1));
    assert_eq!(next_rename(&renames, 2, false), RenameStep::Finished);
    assert_eq!(next_rename(&[], 0, true), RenameStep::Finished);
    assert_eq!(
        refusal("d/report"),
        "refusing to overwrite existing `d/report` \u{2014} tree changed since planning?"
    );
}

#[test]
fn help_and_version_are_options_of_every_command() {
    for list in [
        &["check", "--help"][..],
        &["check", "-h"],
        &["fix", "--apply", "--help", "--nonsense"],
        &["stdin", "-0", "-h"],
        &["check", "some/dir", "--help"],
        &["checks", "--help"],
        &["explain", "-h"],
        &["explain", "NF001", "--help"],
    ] {
        assert!(matches!(command(list), Command::Help), "{list:?}");
    }
    for list in [
        &["check", "--version"][..],
        &["fix", "-V"],
        &["stdin", "--version"],
        &["checks", "-V"],
        &["explain", "--version"],
    ] {
        assert!(matches!(command(list), Command::Version), "{list:?}");
    }
    // What comes first counts, and the value of an option is a value.
    assert!(err(&["check", "--nonsense", "--help"]).contains("unknown option"));
    assert!(err(&["check", "--format", "--help"]).contains("unknown format"));
    assert!(matches!(command(&["check", "-V", "-h"]), Command::Version));
    let reply = run_on(&["check", "--help"], Err("unwalked".to_string()));
    assert_eq!((reply.code, reply.out), (0, help_reply().out));
}

#[test]
fn git_dir_contents_are_ignored() {
    let tree = walk(&[b".git/objects/aux", b"real.txt"]);
    let (text, code) = check(&tree, &["check", "p"]);
    assert_eq!(code, 0, "{text}");
}

#[test]
fn invalid_utf8_names_are_caught_end_to_end() {
    let tree = walk(&[b"caf\xE9 menu.txt"]);
    let (text, code) = check(&tree, &["check", "p"]);
    assert_eq!(code, 1);
    assert!(text.contains("NF013"));
    assert!(text.contains("0xE9"));

    let renames = plan(&tree, &Opts::default().selection());
    assert_eq!(renames[0].to, "caf_ menu.txt");
    assert!(check_component(renames[0].to.as_bytes()).is_empty());
}
