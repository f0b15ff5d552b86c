//! The checks of single names and of siblings.

use namefence::checks::{
    check_component, check_path_length, check_siblings, cloud_reserved_lower, display_name,
    illegal_char_replacement, invisible_info, is_reserved_stem, split_extension,
    truncate_component, windows_stem, InvisibleAction, COMPONENT_LIMIT,
};
use namefence::utf8::patch;

fn ids(bytes: &[u8]) -> Vec<&'static str> {
    check_component(bytes).iter().map(|f| f.check.id).collect()
}

fn fix_for(bytes: &[u8], id: &str) -> Option<String> {
    check_component(bytes)
        .into_iter()
        .find(|f| f.check.id == id)
        .and_then(|f| f.fix)
}

#[test]
fn clean_names_produce_nothing() {
    for name in [
        "report_2024.txt",
        "src",
        ".gitignore",
        "caf\u{00E9}.md",
        "写真.jpg",
    ] {
        assert!(ids(name.as_bytes()).is_empty(), "{name} flagged");
    }
}

#[test]
fn dot_and_dotdot_are_never_flagged() {
    assert!(ids(b".").is_empty());
    assert!(ids(b"..").is_empty());
    assert!(ids(b"").is_empty());
}

#[test]
fn reserved_names_with_and_without_extensions() {
    assert_eq!(ids(b"CON"), ["NF001"]);
    assert_eq!(ids(b"aux.tar.gz"), ["NF001"]);
    assert_eq!(ids(b"NuL.txt"), ["NF001"]);
    assert_eq!(ids(b"lpt9"), ["NF001"]);
    assert_eq!(ids("com\u{00B2}.log".as_bytes()), ["NF001"]);
    assert_eq!(fix_for(b"aux.tar.gz", "NF001").unwrap(), "aux_.tar.gz");
    assert_eq!(fix_for(b"CON", "NF001").unwrap(), "CON_");
}

#[test]
fn reserved_near_misses_pass() {
    // COM10 exists happily; CONS, AUXILIARY and console.log are fine.
    for name in [
        "COM10",
        "LPT10",
        "CONS",
        "auxiliary.txt",
        "console.log",
        "communal",
    ] {
        assert!(ids(name.as_bytes()).is_empty(), "{name} wrongly flagged");
    }
}

#[test]
fn reserved_stem_survives_win32_trailing_strip() {
    // "aux ." -> Win32 strips to "aux": reserved AND trailing-dot.
    let found = ids(b"aux .");
    assert!(found.contains(&"NF001"), "{found:?}");
    assert!(found.contains(&"NF004"), "{found:?}");
}

#[test]
fn illegal_chars_are_listed_once_each_and_mapped() {
    let f = check_component(b"a:b:c*d.txt");
    let hit = f.iter().find(|f| f.check.id == "NF002").unwrap();
    assert!(hit.message.contains("2 Windows-forbidden"));
    assert!(hit.message.contains("`:`") && hit.message.contains("`*`"));
    assert_eq!(hit.fix.as_deref(), Some("a-b-cd.txt"));
    assert_eq!(
        fix_for(b"say \"hi\"<now>?.md", "NF002").unwrap(),
        "say 'hi'(now).md"
    );
}

#[test]
fn control_chars_flagged_with_codepoints() {
    let f = check_component(b"line\nbreak\t.log");
    let hit = f.iter().find(|f| f.check.id == "NF003").unwrap();
    assert!(hit.message.contains("U+000A") && hit.message.contains("U+0009"));
    assert_eq!(hit.fix.as_deref(), Some("linebreak.log"));
}

#[test]
fn icon_cr_is_both_control_and_cloud_reserved() {
    let found = ids(b"Icon\r");
    assert!(found.contains(&"NF003"), "{found:?}");
    assert!(found.contains(&"NF012"), "{found:?}");
}

#[test]
fn trailing_dot_and_space_trim_to_something() {
    assert_eq!(fix_for(b"report.", "NF004").unwrap(), "report");
    assert_eq!(fix_for(b"notes ", "NF004").unwrap(), "notes");
    assert_eq!(fix_for(b"...", "NF004").unwrap(), "_"); // nothing left
    assert!(ids(b"normal.txt").is_empty()); // inner dots are fine
}

#[test]
fn leading_space_trimmed() {
    assert_eq!(fix_for(b"  draft.md", "NF005").unwrap(), "draft.md");
    assert!(ids(b"mid space.md").is_empty());
}

#[test]
fn nfd_name_flagged_with_nfc_fix() {
    let nfd = "cafe\u{0301}.txt";
    let f = check_component(nfd.as_bytes());
    let hit = f.iter().find(|f| f.check.id == "NF008").unwrap();
    assert_eq!(hit.fix.as_deref(), Some("caf\u{00E9}.txt"));
    assert!(hit.message.contains("9 code points"));
    assert!(ids("caf\u{00E9}.txt".as_bytes()).is_empty());
}

#[test]
fn invisible_characters_classified_and_fixed() {
    let name = "fee\u{200B}\u{00A0}plan\u{202E}.txt";
    let f = check_component(name.as_bytes());
    let hit = f.iter().find(|f| f.check.id == "NF009").unwrap();
    assert!(hit.message.contains("zero-width space U+200B"));
    assert!(hit.message.contains("lookalike space U+00A0"));
    assert!(hit.message.contains("bidi control U+202E"));
    assert_eq!(hit.fix.as_deref(), Some("fee plan.txt"));
}

#[test]
fn component_length_checks_both_units() {
    let ascii_long = "a".repeat(256);
    assert_eq!(ids(ascii_long.as_bytes()), ["NF010"]);
    // 90 CJK chars: 270 UTF-8 bytes but only 90 UTF-16 units -> still flagged
    // (byte budget), and the fix must not split a character.
    let cjk = "\u{5199}".repeat(90);
    let f = check_component(cjk.as_bytes());
    assert_eq!(f[0].check.id, "NF010");
    let fixed = f[0].fix.as_deref().unwrap();
    assert!(fixed.len() <= 255 && fixed.chars().count() == 85);
    // 200 emoji: 800 bytes, 400 UTF-16 units -> flagged on both budgets.
    let emoji = "\u{1F600}".repeat(200);
    assert_eq!(ids(emoji.as_bytes()), ["NF010"]);
    let ok = "a".repeat(255);
    assert!(ids(ok.as_bytes()).is_empty());
}

#[test]
fn truncation_preserves_extension() {
    let name = format!("{}.tar.gz", "x".repeat(300));
    let fixed = truncate_component(&name);
    assert!(fixed.ends_with(".gz"));
    assert!(fixed.len() <= 255);
    // A dotfile with no real extension truncates as a whole.
    let dotfile = format!(".{}", "y".repeat(300));
    let fixed2 = truncate_component(&dotfile);
    assert_eq!(fixed2.len(), 255);
    assert!(fixed2.starts_with('.'));
}

#[test]
fn split_extension_edge_cases() {
    assert_eq!(split_extension("a.txt"), ("a", ".txt"));
    assert_eq!(split_extension(".bashrc"), (".bashrc", ""));
    assert_eq!(split_extension("noext"), ("noext", ""));
    assert_eq!(
        split_extension("weird.aaaaaaaaaaaaaaaaaaaaaa"),
        ("weird.aaaaaaaaaaaaaaaaaaaaaa", "")
    );
}

#[test]
fn path_length_budget() {
    assert!(check_path_length("short/path.txt", 240).is_none());
    let long = format!("{}/file.txt", "d".repeat(300));
    let f = check_path_length(&long, 240).unwrap();
    assert_eq!(f.check.id, "NF011");
    assert!(f.fix.is_none());
    assert!(check_path_length(&long, 500).is_none());
}

#[test]
fn cloud_reserved_names_by_platform() {
    assert_eq!(ids(b"Thumbs.db"), ["NF012"]);
    assert_eq!(ids(b"desktop.ini"), ["NF012"]);
    assert_eq!(ids(b".DS_Store"), ["NF012"]);
    assert_eq!(ids(b"~$budget.xlsx"), ["NF012"]);
    assert_eq!(ids(b"my_vti_dir"), ["NF012"]);
    assert!(ids(b"desktop.txt").is_empty());
    assert!(ids(b"thumbsup.db").is_empty());
}

#[test]
fn invalid_utf8_reports_offset_and_suggests_ascii() {
    let f = check_component(b"caf\xE9.txt"); // Latin-1 e-acute
    assert_eq!(f.len(), 1);
    assert_eq!(f[0].check.id, "NF013");
    assert!(f[0].message.contains("0xE9 at offset 3"));
    assert_eq!(f[0].fix.as_deref(), Some("caf_.txt"));
}

#[test]
fn one_name_can_carry_many_findings() {
    let found = ids(b"aux. draft: ");
    assert_eq!(found, ["NF001", "NF002", "NF004"]);
}

#[test]
fn reserved_stem_with_inner_trailing_space() {
    // "nul .txt": the stem before the first dot is "nul " and Win32
    // trims it to the NUL device.
    let f = check_component(b"nul .txt");
    let hit = f.iter().find(|f| f.check.id == "NF001").unwrap();
    assert_eq!(hit.fix.as_deref(), Some("nul_ .txt"));
}

#[test]
fn case_collision_detected_and_attributed() {
    let names: Vec<&[u8]> = vec![b"README.md", b"readme.md", b"other.txt"];
    let hits = check_siblings(&names);
    assert_eq!(hits.len(), 1);
    assert_eq!(hits[0].index, 1);
    assert_eq!(hits[0].first_index, 0);
    assert_eq!(hits[0].finding.check.id, "NF006");
    assert!(hits[0].finding.message.contains("`README.md`"));
}

#[test]
fn unicode_case_collision_across_normalization_forms() {
    // NFC uppercase vs NFD lowercase: needs normalization AND folding.
    let a = "R\u{00C9}SUM\u{00C9}.doc";
    let b = "re\u{0301}sume\u{0301}.doc";
    let names: Vec<&[u8]> = vec![a.as_bytes(), b.as_bytes()];
    let hits = check_siblings(&names);
    assert_eq!(hits.len(), 1);
    assert_eq!(hits[0].finding.check.id, "NF006");
}

#[test]
fn normalization_collision_beats_case_collision() {
    // Byte-different but NFC-equal: precise diagnosis is NF007, not NF006.
    let a = "caf\u{00E9}.txt";
    let b = "cafe\u{0301}.txt";
    let names: Vec<&[u8]> = vec![a.as_bytes(), b.as_bytes()];
    let hits = check_siblings(&names);
    assert_eq!(hits.len(), 1);
    assert_eq!(hits[0].finding.check.id, "NF007");
    // The NFD name has 9 code points, its NFC sibling 8.
    assert!(hits[0].finding.message.contains("9 code points"));
    assert!(hits[0].finding.message.contains("8 code points"));
}

#[test]
fn three_way_collision_reports_two_findings_against_the_first() {
    let names: Vec<&[u8]> = vec![b"a.txt", b"A.txt", b"A.TXT"];
    let hits = check_siblings(&names);
    assert_eq!(hits.len(), 2);
    assert!(hits.iter().all(|h| h.first_index == 0));
}

#[test]
fn distinct_names_do_not_collide() {
    let names: Vec<&[u8]> = vec![b"a.txt", b"b.txt", "stra\u{00DF}e".as_bytes(), b"strasse"];
    // ß does not case-fold to ss in filesystem comparisons; no collision.
    assert!(check_siblings(&names).is_empty());
}

#[test]
fn display_name_makes_invisibles_visible() {
    assert_eq!(display_name(b"a\nb"), "a<U+000A>b");
    assert_eq!(display_name("a\u{200B}b".as_bytes()), "a<U+200B>b");
    assert_eq!(display_name(b"caf\xE9"), "caf<0xE9>");
    assert_eq!(display_name(b"plain.txt"), "plain.txt");
}

fn message_for(bytes: &[u8], id: &str) -> String {
    check_component(bytes)
        .into_iter()
        .find(|f| f.check.id == id)
        .map(|f| f.message)
        .unwrap()
}

#[test]
fn messages_are_exact() {
    assert_eq!(
        message_for(b"aux .txt", "NF001"),
        "`aux .txt` has the reserved DOS device stem `AUX`; Windows cannot create, open or delete it"
    );
    assert_eq!(
        message_for(b"a:b*:c", "NF002"),
        "`a:b*:c` contains 2 Windows-forbidden character(s): `:`, `*`"
    );
    assert_eq!(
        message_for(b"\tb\n\t", "NF003"),
        "`<U+0009>b<U+000A><U+0009>` contains 3 control character(s): U+0009, U+000A"
    );
    assert_eq!(
        message_for(b"a.", "NF004"),
        "`a.` ends with a dot; Windows silently strips it, so the stored and visible names disagree"
    );
    assert_eq!(
        message_for(b"a. ", "NF004"),
        "`a. ` ends with a space; Windows silently strips it, so the stored and visible names disagree"
    );
    assert_eq!(
        message_for(b" a", "NF005"),
        "` a` begins with a space; Explorer and OneDrive reject or hide such names"
    );
    assert_eq!(
        message_for("e\u{0301}".as_bytes(), "NF008"),
        "`e\u{0301}` is not NFC-normalized (2 code points; the NFC form has 1); byte-comparing sync \
tools treat the two encodings as different files"
    );
    assert_eq!(
        message_for("a\u{00AD}\u{200D}\u{00AD}".as_bytes(), "NF009"),
        "`a<U+00AD><U+200D><U+00AD>` contains 3 invisible or lookalike character(s): soft hyphen \
U+00AD, zero-width joiner U+200D"
    );
    assert_eq!(
        message_for("\u{5199}".repeat(90).as_bytes(), "NF010"),
        "name is 270 UTF-8 bytes / 90 UTF-16 units; the portable limit is 255 of each"
    );
    assert_eq!(
        message_for(b"Desktop.INI", "NF012"),
        "`Desktop.INI` is rejected by OneDrive and silently skipped by Dropbox; if it holds real \
data it will quietly not sync"
    );
    assert_eq!(
        message_for(b"ab\xF0\x9F\x98", "NF013"),
        "name is not valid UTF-8 (first invalid byte 0xF0 at offset 2); macOS, Windows and every \
sync client require Unicode names"
    );
}

#[test]
fn collision_messages_are_exact() {
    let nfd = "cafe\u{0301}".as_bytes();
    let nfc = "caf\u{00E9}".as_bytes();
    let names: Vec<&[u8]> = vec![nfd, nfc, b"A", b"a"];
    let hits = check_siblings(&names);
    assert_eq!(hits.len(), 2);
    assert_eq!(
        hits[0].finding.message,
        "`caf\u{00E9}` (4 code points) and sibling `cafe\u{0301}` (5 code points) are the same text \
in different Unicode encodings; macOS and sync tools see one file"
    );
    assert_eq!(
        hits[1].finding.message,
        "`a` collides with sibling `A` on case-insensitive filesystems (Windows, macOS default)"
    );
    assert!(hits.iter().all(|h| h.finding.fix.is_none()));
}

#[test]
fn undecodable_siblings_never_collide() {
    let names: Vec<&[u8]> = vec![b"a\xFF", b"A\xFF", b"b", b"a\xFF"];
    assert!(check_siblings(&names).is_empty());
}

#[test]
fn stems_end_at_the_first_dot() {
    assert_eq!(windows_stem("aux.tar.gz"), "aux");
    assert_eq!(windows_stem("aux  "), "aux");
    assert_eq!(windows_stem("nul .txt"), "nul");
    assert_eq!(windows_stem(".txt"), "");
    assert_eq!(windows_stem(""), "");
    assert_eq!(windows_stem("plain"), "plain");
}

#[test]
fn device_names_in_any_case() {
    for stem in ["con", "PRN", "Aux", "nUl", "com0", "LPT9", "Com\u{00B9}", "lpt\u{00B3}"] {
        assert!(is_reserved_stem(stem), "{stem}");
    }
    for stem in ["", "co", "cons", "com", "lpt", "com10", "comx", "com\u{2074}", "\u{00E7}on"] {
        assert!(!is_reserved_stem(stem), "{stem}");
    }
}

#[test]
fn no_other_character_capitalizes_into_a_device_name() {
    // Only ASCII letters matter for device names: what any other character
    // capitalizes to is not made of the characters of device names.
    for cp in 0x80..0x11_0000u32 {
        if let Some(c) = char::from_u32(cp) {
            let device = |x: char| "CONPRAUXLMT0123456789".contains(x);
            assert!(!c.to_uppercase().all(device), "U+{cp:04X}");
        }
    }
    for c in ['\u{00B9}', '\u{00B2}', '\u{00B3}'] {
        assert_eq!(c.to_uppercase().to_string(), c.to_string());
    }
}

#[test]
fn characters_are_classified() {
    for (c, with) in [
        (':', "-"),
        ('|', "-"),
        ('\\', "-"),
        ('"', "'"),
        ('<', "("),
        ('>', ")"),
        ('?', ""),
        ('*', ""),
    ] {
        assert_eq!(illegal_char_replacement(c), Some(with));
    }
    assert_eq!(illegal_char_replacement('/'), None);
    assert_eq!(illegal_char_replacement('a'), None);
    let kinds: [(char, &str, bool); 8] = [
        ('\u{00A0}', "lookalike space", true),
        ('\u{2009}', "lookalike space", true),
        ('\u{1680}', "lookalike space", true),
        ('\u{FEFF}', "zero-width space", false),
        ('\u{200C}', "zero-width joiner", false),
        ('\u{00AD}', "soft hyphen", false),
        ('\u{061C}', "bidi control", false),
        ('\u{2069}', "bidi control", false),
    ];
    for (c, label, space) in kinds {
        let (found, action) = invisible_info(c).unwrap();
        assert_eq!(found, label);
        assert_eq!(action == InvisibleAction::ReplaceWithSpace, space);
        assert_eq!(action == InvisibleAction::Remove, !space);
    }
    // The ideographic space is visible and typed on purpose.
    assert!(invisible_info('\u{3000}').is_none());
    assert!(invisible_info('a').is_none());
}

#[test]
fn names_are_displayed_visibly() {
    assert_eq!(display_name("\u{85}\u{9F}\u{A1}".as_bytes()), "<U+0085><U+009F>\u{A1}");
    assert_eq!(display_name("\u{FEFF}\u{7F}".as_bytes()), "<U+FEFF><U+007F>");
    assert_eq!(display_name(b"\x00\x1F ~\x7F\x80"), "<0x00><0x1F> ~<0x7F><0x80>");
    assert_eq!(display_name(b""), "");
    for cp in 0..0x3000u32 {
        if let Some(c) = char::from_u32(cp) {
            let shown = display_name(c.to_string().as_bytes());
            assert_eq!(shown != c.to_string(), c.is_control() || invisible_info(c).is_some());
            assert!(!shown.chars().any(|x| x.is_control() || invisible_info(x).is_some()));
        }
    }
}

#[test]
fn extensions_are_counted_in_characters() {
    assert_eq!(split_extension("a.123456789012345"), ("a", ".123456789012345"));
    assert_eq!(split_extension("a.1234567890123456"), ("a.1234567890123456", ""));
    assert_eq!(
        split_extension("a.\u{5199}\u{771F}\u{5199}\u{771F}\u{5199}\u{771F}"),
        ("a", ".\u{5199}\u{771F}\u{5199}\u{771F}\u{5199}\u{771F}")
    );
    assert_eq!(split_extension("a."), ("a", "."));
    assert_eq!(split_extension("a.b.c"), ("a.b", ".c"));
    assert_eq!(split_extension(""), ("", ""));
}

#[test]
fn truncation_at_the_edges() {
    assert_eq!(COMPONENT_LIMIT, 255);
    assert_eq!(truncate_component("short.txt"), "short.txt");
    assert_eq!(truncate_component(""), "_");
    assert_eq!(truncate_component("   "), "_");
    assert_eq!(truncate_component(" . "), ". ");
    // What the cut lays bare at the end of the stem is trimmed.
    let spaced = format!("{} .{}.txt", "x".repeat(249), "y".repeat(50));
    assert_eq!(truncate_component(&spaced), format!("{}.txt", "x".repeat(249)));
    // UTF-16 units count too: 127 of these take 254 units and 508 bytes.
    let emoji = "\u{1F600}".repeat(127);
    assert_eq!(truncate_component(&emoji), "\u{1F600}".repeat(63));
}

#[test]
fn cloud_names_in_lowercase() {
    assert_eq!(
        cloud_reserved_lower("desktop.ini"),
        Some("rejected by OneDrive and silently skipped by Dropbox")
    );
    assert_eq!(cloud_reserved_lower("thumbs.db"), Some("silently skipped by Dropbox"));
    for name in [".ds_store", "icon\r"] {
        assert_eq!(
            cloud_reserved_lower(name),
            Some("macOS metadata; silently skipped by Dropbox")
        );
    }
    for name in [".dropbox", ".dropbox.attr"] {
        assert_eq!(
            cloud_reserved_lower(name),
            Some("reserved by the Dropbox client itself")
        );
    }
    assert_eq!(
        cloud_reserved_lower("~$x"),
        Some("Office lock-file prefix; skipped by OneDrive and Dropbox")
    );
    assert_eq!(cloud_reserved_lower("a_vti_"), Some("rejected by OneDrive/SharePoint"));
    assert_eq!(cloud_reserved_lower("x~$"), None);
    assert_eq!(cloud_reserved_lower("_vti"), None);
    assert_eq!(cloud_reserved_lower("Thumbs.db"), None);
    assert_eq!(cloud_reserved_lower(""), None);
    // The Kelvin sign is a capital `k` to the standard library.
    assert_eq!(ids("des\u{212A}top.ini".as_bytes()), ["NF008", "NF012"]);
}

#[test]
fn each_invalid_byte_becomes_an_underscore() {
    assert_eq!(fix_for(b"a\xE2\x82.txt", "NF013").unwrap(), "a__.txt");
    assert_eq!(fix_for(b"a\xE2\x82b\xFF\xFE", "NF013").unwrap(), "a__b__");
    // A surrogate and an overlong form are no characters either.
    assert_eq!(fix_for(b"\xED\xA0\x80x\xC0\xAF", "NF013").unwrap(), "___x__");
    // What is valid stays, a replacement character too.
    let name = b"\xEF\xBF\xBD\xF0\x9F\x98\x80\xF0\x9F\x98";
    assert_eq!(fix_for(name, "NF013").unwrap(), "\u{FFFD}\u{1F600}___");
    assert_eq!(patch(b"caf\xC3\xA9"), "caf\u{E9}");
    assert_eq!(patch(b""), "");
}

#[test]
fn a_suggested_name_is_free_of_its_problem() {
    for name in [
        &b"aux .tar.gz"[..],
        b"com1",
        b"a:b<c>d?*\"|\\",
        b"a\nb\x7F",
        b"...",
        b"x. .",
        b"   ",
        b"  a",
        "e\u{0301}\u{0338}".as_bytes(),
        "\u{200B}\u{00A0}".as_bytes(),
        "\u{5199}".repeat(90).as_bytes(),
        b"caf\xE9:",
    ] {
        let found = check_component(name);
        assert!(!found.is_empty());
        for f in &found {
            if let Some(fix) = &f.fix {
                let left = ids(fix.as_bytes());
                assert!(!left.contains(&f.check.id), "{fix} still has {}", f.check.id);
            }
        }
    }
}

#[test]
fn path_budget_is_inclusive() {
    assert!(check_path_length("abc", 3).is_none());
    let f = check_path_length("\u{1F600}\u{1F600}", 3).unwrap();
    assert_eq!(
        f.message,
        "relative path is 4 UTF-16 units, over the --max-path budget of 3; Win32 MAX_PATH counts \
260 for the absolute path"
    );
}
