//! The check catalog: stable IDs, severities, target platforms, one-line
//! descriptions and the long-form texts.
//!
//! Every finding that the library can produce is declared here, so that check
//! selection, target selection and the listings work on one source of truth. IDs
//! are stable across releases: new checks append, they never renumber.

use vstd::prelude::*;

use crate::numerals::{digit, numeral};
use crate::text::{same_text, same_text_ignoring_case, to_upper, upper, upper_all};

verus! {

/// How bad a finding is, from least to worst.
#[derive(Debug, Clone, Copy, PartialEq, Eq, PartialOrd, Ord, Structural)]
pub enum Severity {
    Info,
    Warning,
    Error,
}

impl Severity {
    /// The name of a severity.
    pub open spec fn label(self) -> Seq<char> {
        match self {
            Severity::Error => "error"@,
            Severity::Warning => "warning"@,
            Severity::Info => "info"@,
        }
    }

    /// The place of a severity in the order from least to worst.
    pub open spec fn level(self) -> int {
        match self {
            Severity::Info => 0,
            Severity::Warning => 1,
            Severity::Error => 2,
        }
    }

    pub fn as_str(self) -> (r: &'static str)
        ensures
            r@ == self.label(),
    {
        match self {
            Severity::Error => "error",
            Severity::Warning => "warning",
            Severity::Info => "info",
        }
    }

    /// Is this severity as bad as `other`, or worse?
    pub fn at_least(self, other: Severity) -> (r: bool)
        ensures
            r == (self.level() >= other.level()),
    {
        match self {
            Severity::Error => true,
            Severity::Warning => other != Severity::Error,
            Severity::Info => other == Severity::Info,
        }
    }
}

/// Where a name breaks. A check runs when its targets meet the selected ones.
#[derive(Debug, Clone, Copy, PartialEq, Eq, PartialOrd, Ord, Structural)]
pub enum Target {
    Windows,
    Macos,
    Linux,
    Cloud,
}

impl Target {
    pub const ALL: [Target; 4] = [Target::Windows, Target::Macos, Target::Linux, Target::Cloud];

    /// The name of a target.
    pub open spec fn label(self) -> Seq<char> {
        match self {
            Target::Windows => "windows"@,
            Target::Macos => "macos"@,
            Target::Linux => "linux"@,
            Target::Cloud => "cloud"@,
        }
    }

    pub fn as_str(self) -> (r: &'static str)
        ensures
            r@ == self.label(),
    {
        match self {
            Target::Windows => "windows",
            Target::Macos => "macos",
            Target::Linux => "linux",
            Target::Cloud => "cloud",
        }
    }

    /// The target of that name.
    pub fn parse(s: &str) -> (r: Option<Target>)
        ensures
            r is Some ==> s@ == (r->0).label(),
            r is None ==> forall|t: Target| s@ != #[trigger] t.label(),
    {
        if same_text(s, "windows") {
            Some(Target::Windows)
        } else if same_text(s, "macos") {
            Some(Target::Macos)
        } else if same_text(s, "linux") {
            Some(Target::Linux)
        } else if same_text(s, "cloud") {
            Some(Target::Cloud)
        } else {
            None
        }
    }
}

/// Two targets of one name are the same.
pub proof fn law_target_labels_differ(a: Target, b: Target)
    requires
        a.label() == b.label(),
    ensures
        a == b,
{
    reveal_strlit("windows");
    reveal_strlit("macos");
    reveal_strlit("linux");
    reveal_strlit("cloud");
    assert("windows"@[0] == 'w' && "macos"@[0] == 'm' && "linux"@[0] == 'l' && "cloud"@[0] == 'c');
}

/// One entry in the catalog.
pub struct Check {
    pub id: &'static str,
    pub name: &'static str,
    pub severity: Severity,
    pub targets: &'static [Target],
    /// One-line description.
    pub summary: &'static str,
    /// The long story.
    pub explain: &'static str,
}

/// What an entry of the catalog says.
pub ghost struct Row {
    pub id: Seq<char>,
    pub name: Seq<char>,
    pub severity: Severity,
    pub targets: Seq<Target>,
    pub summary: Seq<char>,
    pub explain: Seq<char>,
}

impl View for Check {
    type V = Row;

    open spec fn view(&self) -> Row {
        Row {
            id: self.id@,
            name: self.name@,
            severity: self.severity,
            targets: self.targets@,
            summary: self.summary@,
            explain: self.explain@,
        }
    }
}

/// Number of checks.
pub const CHECK_COUNT: usize = 13;

pub const SUMMARY_1: &'static str = "name (or its stem) is a reserved DOS device name: CON, PRN, AUX, NUL, COM0-9, LPT0-9";

pub const SUMMARY_2: &'static str = "name contains a character Windows forbids: < > : \" | ? * or backslash";

pub const SUMMARY_3: &'static str = "name contains an ASCII control character (0x00-0x1F, 0x7F)";

pub const SUMMARY_4: &'static str = "name ends with a dot or a space, which Windows silently strips";

pub const SUMMARY_5: &'static str = "name begins with a space";

pub const SUMMARY_6: &'static str = "two names in one directory differ only by letter case";

pub const SUMMARY_7: &'static str = "two names in one directory are the same text in different Unicode encodings";

pub const SUMMARY_8: &'static str = "name is not in NFC form (decomposed accents, the macOS round-trip artifact)";

pub const SUMMARY_9: &'static str = "name contains zero-width, bidi-control or lookalike-space characters";

pub const SUMMARY_10: &'static str = "single name longer than 255 UTF-8 bytes or 255 UTF-16 units";

pub const SUMMARY_11: &'static str = "full relative path exceeds the --max-path budget (default 240)";

pub const SUMMARY_12: &'static str = "name that cloud sync clients refuse or silently skip (desktop.ini, ~$..., .ds_store, ...)";

pub const SUMMARY_13: &'static str = "name is not valid UTF-8";

pub const EXPLAIN_1: &'static str = "Windows reserves the DOS device names CON, PRN, AUX, NUL, COM0..COM9, \
LPT0..LPT9 (and the superscript variants COM\u{00B9}\u{00B2}\u{00B3}, LPT\u{00B9}\u{00B2}\u{00B3}) \
in every directory, in any case, and *with any extension*: `aux.tar.gz` is just as \
unusable as `AUX`. Such a file created on Linux cannot be checked out, opened or \
deleted through normal Windows APIs, and OneDrive refuses to sync it. The stem is \
compared case-insensitively up to the first dot, after stripping trailing spaces \
and dots the way the Win32 layer does.\n\nfix: namefence suggests appending `_` to \
the reserved stem (`aux.tar.gz` -> `aux_.tar.gz`), which keeps the name readable \
and sortable.";

pub const EXPLAIN_2: &'static str = "NTFS and the Win32 API reject nine characters that are perfectly legal \
on Linux and macOS: `<` `>` `:` `\"` `|` `?` `*` `\\` and `/` (the last cannot occur \
inside a component on any platform, so namefence checks the other eight). A `git \
clone` of a repository containing `results:final.csv` fails on Windows with a \
checkout error, and every major cloud client rejects the upload. Note that macOS \
Finder displays `:` as `/` and vice versa \u{2014} a name legal on one desktop can be \
unrepresentable on another.\n\nfix: namefence maps each character to a safe, \
visually close substitute: `:` and `|` and `\\` become `-`, `\"` becomes `'`, `<` \
and `>` become `(` and `)`, `?` and `*` are dropped.";

pub const EXPLAIN_3: &'static str = "Linux allows every byte except `/` and NUL in a filename, so names \
containing newlines, tabs or escape characters do occur \u{2014} usually created by a \
buggy script. Windows rejects code points below 0x20 outright, cloud clients \
refuse them, terminals mangle them, and a newline inside a filename breaks every \
line-oriented tool downstream (`xargs`, `while read`, log parsers). The classic \
macOS offender `Icon\\r` (Finder custom-icon marker) is also caught by this \
check.\n\nfix: namefence suggests removing the control characters.";

pub const EXPLAIN_4: &'static str = "The Win32 layer strips trailing dots and spaces before touching the \
filesystem: `report.` and `report` are the same file to Windows but different \
files to Linux. Sync a directory containing both and one of them silently \
overwrites the other; a name that is *only* reachable with its trailing dot \
cannot be opened or deleted from Explorer at all. OneDrive and Dropbox both \
reject such names at upload time.\n\nfix: namefence suggests trimming the \
trailing dots and spaces (falling back to `_` if nothing remains).";

pub const EXPLAIN_5: &'static str = "Leading spaces are technically storable on NTFS but Explorer, the \
file dialogs and most shells make the file look broken or unreachable, and \
OneDrive rejects names that begin with a space. They also sort the file \
invisibly to the top of every listing, which is how they usually go unnoticed \
until a sync fails.\n\nfix: namefence suggests trimming the leading spaces.";

pub const EXPLAIN_6: &'static str = "`README.md` and `readme.md` are two files on ext4 but one file on \
the case-insensitive filesystems that Windows and macOS ship by default. A git \
checkout of both produces one file with the other's content and a permanently \
dirty working tree; Dropbox and OneDrive create conflict copies or drop one \
side. namefence compares names after canonical normalization and full Unicode \
case folding, so `R\u{00C9}SUM\u{00C9}.doc` vs `r\u{00E9}sum\u{00E9}.doc` is caught \
too, matching how NTFS and APFS actually compare.\n\nfix: namefence keeps the \
first name and suggests numbered renames (`readme-2.md`) for the rest.";

pub const EXPLAIN_7: &'static str = "A composed `caf\u{00E9}` (5 code points) and a decomposed \
`cafe\u{0301}` (6 code points) are distinct names on ext4 but the *same* name on \
macOS, which normalizes filenames. Directories accumulate such pairs after a \
round trip through a Mac, and they are the signature failure behind endless \
Syncthing and Dropbox forum threads: the two sides ping-pong the \"duplicate\", \
or one silently overwrites the other on the next full sync. namefence compares \
canonical (NFC) forms to find these pairs before the sync does.\n\nfix: \
namefence keeps the first name and suggests a numbered rename for the other; \
usually one of the pair is a stale duplicate you can simply delete.";

pub const EXPLAIN_8: &'static str = "Linux and Windows store filenames as the byte sequence you give \
them; macOS historically re-encodes them into decomposed (NFD-style) form. A \
file that has round-tripped through a Mac comes back byte-different while \
looking identical on screen. Byte-comparing sync tools then re-upload it \
forever, dedup tools see two files, tab completion stops matching what you \
type, and `git status` shows phantom changes. Keeping every name in NFC \u{2014} \
the form Linux keyboards and Windows produce natively \u{2014} makes the problem \
impossible.\n\nfix: namefence suggests the NFC re-encoding of the same visible \
name (the rename is invisible on screen but changes the bytes).";

pub const EXPLAIN_9: &'static str = "Zero-width spaces and joiners, soft hyphens, BOMs, bidi controls \
and no-break spaces render as nothing or as an ordinary space, producing two \
names that look identical in every file manager yet never match each other. \
They arrive through copy-paste from chat tools and PDFs, and bidi controls in \
particular can make a name *display* in a different order than it compares. \
This check is severity `warning` because the names work everywhere \u{2014} they \
just deceive humans and diff tools.\n\nfix: namefence suggests deleting \
zero-width and control code points and replacing lookalike spaces with plain \
spaces.";

pub const EXPLAIN_10: &'static str = "Every mainstream filesystem caps one name component at 255 units \u{2014} \
but the unit differs: bytes on ext4, UTF-16 code units on NTFS, and macOS \
enforces 255 UTF-16 units at the API layer. A 90-character CJK name fits \
easily as UTF-16 yet occupies 270 UTF-8 bytes and cannot be created on Linux; \
a long emoji name does the reverse. namefence flags a component when either \
budget is exceeded, so the name works everywhere.\n\nfix: namefence suggests \
truncating the stem at a character boundary while preserving the extension.";

pub const EXPLAIN_11: &'static str = "Classic Win32 APIs stop at MAX_PATH = 260 characters for the \
*absolute* path, and unpatched Explorer, installers and countless tools still \
enforce it; OneDrive additionally caps the full path at 400 characters. Because \
the absolute prefix (`C:\\Users\\...\\Dropbox\\`) eats budget you cannot see from \
inside the tree, namefence measures the path relative to the scan root against \
a conservative default of 240 (override with `--max-path`). Deep node_modules- \
style trees and \"copy of copy of\" folders are the usual offenders.\n\nfix: no \
mechanical rename can fix depth; shorten directory names near the root.";

pub const EXPLAIN_12: &'static str = "Cloud clients hard-code name lists they will not sync: OneDrive \
rejects `desktop.ini` and any name containing `_vti_`; Dropbox silently skips \
`desktop.ini`, `thumbs.db`, `.ds_store`, `icon\\r`, `.dropbox` and \
`.dropbox.attr`; both skip Office lock files starting with `~$`. Silent skips \
are the dangerous half: the file simply never appears on the other machine and \
nothing tells you. If real data hides in such a name (a tool that dumps state \
into `thumbs.db`, say), it will quietly not be backed up.\n\nfix: none \
suggested automatically \u{2014} these are usually system litter to delete or \
exclude; rename by hand if the file carries real data.";

pub const EXPLAIN_13: &'static str = "Linux filenames are raw bytes, so a name written under a legacy \
locale (Latin-1, Shift-JIS) or corrupted by a buggy tool can contain byte \
sequences that decode as nothing. macOS and Windows both require their \
filenames to be valid Unicode, so these names cannot be represented on either, \
and every sync client errors out or skips them. They also render as `?` \
mojibake in terminals and break any UTF-8-assuming script.\n\nfix: namefence \
suggests the name with each invalid byte replaced by `_`; recover the intended \
name by converting from the original encoding if you know it.";

/// The `k`-th entry of the catalog, in ID order.
#[verifier::opaque]
pub open spec fn row(k: int) -> Row {
    if k == 0 {
        Row {
            id: "NF001"@,
            name: "windows-reserved-name"@,
            severity: Severity::Error,
            targets: seq![Target::Windows, Target::Cloud],
            summary: SUMMARY_1@,
            explain: EXPLAIN_1@,
        }
    } else if k == 1 {
        Row {
            id: "NF002"@,
            name: "windows-illegal-char"@,
            severity: Severity::Error,
            targets: seq![Target::Windows, Target::Cloud],
            summary: SUMMARY_2@,
            explain: EXPLAIN_2@,
        }
    } else if k == 2 {
        Row {
            id: "NF003"@,
            name: "control-character"@,
            severity: Severity::Error,
            targets: seq![Target::Windows, Target::Cloud],
            summary: SUMMARY_3@,
            explain: EXPLAIN_3@,
        }
    } else if k == 3 {
        Row {
            id: "NF004"@,
            name: "trailing-dot-or-space"@,
            severity: Severity::Error,
            targets: seq![Target::Windows, Target::Cloud],
            summary: SUMMARY_4@,
            explain: EXPLAIN_4@,
        }
    } else if k == 4 {
        Row {
            id: "NF005"@,
            name: "leading-space"@,
            severity: Severity::Warning,
            targets: seq![Target::Windows, Target::Cloud],
            summary: SUMMARY_5@,
            explain: EXPLAIN_5@,
        }
    } else if k == 5 {
        Row {
            id: "NF006"@,
            name: "case-collision"@,
            severity: Severity::Error,
            targets: seq![Target::Windows, Target::Macos, Target::Cloud],
            summary: SUMMARY_6@,
            explain: EXPLAIN_6@,
        }
    } else if k == 6 {
        Row {
            id: "NF007"@,
            name: "normalization-collision"@,
            severity: Severity::Error,
            targets: seq![Target::Macos, Target::Cloud],
            summary: SUMMARY_7@,
            explain: EXPLAIN_7@,
        }
    } else if k == 7 {
        Row {
            id: "NF008"@,
            name: "non-nfc"@,
            severity: Severity::Warning,
            targets: seq![Target::Macos, Target::Cloud],
            summary: SUMMARY_8@,
            explain: EXPLAIN_8@,
        }
    } else if k == 8 {
        Row {
            id: "NF009"@,
            name: "invisible-character"@,
            severity: Severity::Warning,
            targets: seq![Target::Windows, Target::Macos, Target::Linux, Target::Cloud],
            summary: SUMMARY_9@,
            explain: EXPLAIN_9@,
        }
    } else if k == 9 {
        Row {
            id: "NF010"@,
            name: "component-too-long"@,
            severity: Severity::Error,
            targets: seq![Target::Windows, Target::Macos, Target::Linux, Target::Cloud],
            summary: SUMMARY_10@,
            explain: EXPLAIN_10@,
        }
    } else if k == 10 {
        Row {
            id: "NF011"@,
            name: "path-too-long"@,
            severity: Severity::Warning,
            targets: seq![Target::Windows, Target::Cloud],
            summary: SUMMARY_11@,
            explain: EXPLAIN_11@,
        }
    } else if k == 11 {
        Row {
            id: "NF012"@,
            name: "cloud-reserved-name"@,
            severity: Severity::Warning,
            targets: seq![Target::Cloud],
            summary: SUMMARY_12@,
            explain: EXPLAIN_12@,
        }
    } else {
        Row {
            id: "NF013"@,
            name: "invalid-utf8"@,
            severity: Severity::Error,
            targets: seq![Target::Windows, Target::Macos, Target::Cloud],
            summary: SUMMARY_13@,
            explain: EXPLAIN_13@,
        }
    }
}

/// The full catalog, in ID order.
pub fn catalog() -> (r: &'static [Check])
    ensures
        r@.len() == CHECK_COUNT,
        forall|k: int| 0 <= k < CHECK_COUNT ==> (#[trigger] r@[k])@ == row(k),
{
    reveal(row);
    let all: &'static [Check] = &[
        Check {
            id: "NF001",
            name: "windows-reserved-name",
            severity: Severity::Error,
            targets: &[Target::Windows, Target::Cloud],
            summary: SUMMARY_1,
            explain: EXPLAIN_1,
        },
        Check {
            id: "NF002",
            name: "windows-illegal-char",
            severity: Severity::Error,
            targets: &[Target::Windows, Target::Cloud],
            summary: SUMMARY_2,
            explain: EXPLAIN_2,
        },
        Check {
            id: "NF003",
            name: "control-character",
            severity: Severity::Error,
            targets: &[Target::Windows, Target::Cloud],
            summary: SUMMARY_3,
            explain: EXPLAIN_3,
        },
        Check {
            id: "NF004",
            name: "trailing-dot-or-space",
            severity: Severity::Error,
            targets: &[Target::Windows, Target::Cloud],
            summary: SUMMARY_4,
            explain: EXPLAIN_4,
        },
        Check {
            id: "NF005",
            name: "leading-space",
            severity: Severity::Warning,
            targets: &[Target::Windows, Target::Cloud],
            summary: SUMMARY_5,
            explain: EXPLAIN_5,
        },
        Check {
            id: "NF006",
            name: "case-collision",
            severity: Severity::Error,
            targets: &[Target::Windows, Target::Macos, Target::Cloud],
            summary: SUMMARY_6,
            explain: EXPLAIN_6,
        },
        Check {
            id: "NF007",
            name: "normalization-collision",
            severity: Severity::Error,
            targets: &[Target::Macos, Target::Cloud],
            summary: SUMMARY_7,
            explain: EXPLAIN_7,
        },
        Check {
            id: "NF008",
            name: "non-nfc",
            severity: Severity::Warning,
            targets: &[Target::Macos, Target::Cloud],
            summary: SUMMARY_8,
            explain: EXPLAIN_8,
        },
        Check {
            id: "NF009",
            name: "invisible-character",
            severity: Severity::Warning,
            targets: &[Target::Windows, Target::Macos, Target::Linux, Target::Cloud],
            summary: SUMMARY_9,
            explain: EXPLAIN_9,
        },
        Check {
            id: "NF010",
            name: "component-too-long",
            severity: Severity::Error,
            targets: &[Target::Windows, Target::Macos, Target::Linux, Target::Cloud],
            summary: SUMMARY_10,
            explain: EXPLAIN_10,
        },
        Check {
            id: "NF011",
            name: "path-too-long",
            severity: Severity::Warning,
            targets: &[Target::Windows, Target::Cloud],
            summary: SUMMARY_11,
            explain: EXPLAIN_11,
        },
        Check {
            id: "NF012",
            name: "cloud-reserved-name",
            severity: Severity::Warning,
            targets: &[Target::Cloud],
            summary: SUMMARY_12,
            explain: EXPLAIN_12,
        },
        Check {
            id: "NF013",
            name: "invalid-utf8",
            severity: Severity::Error,
            targets: &[Target::Windows, Target::Macos, Target::Cloud],
            summary: SUMMARY_13,
            explain: EXPLAIN_13,
        },
    ];
    assert(all@[0]@.targets == row(0).targets);
    assert(all@[1]@.targets == row(1).targets);
    assert(all@[2]@.targets == row(2).targets);
    assert(all@[3]@.targets == row(3).targets);
    assert(all@[4]@.targets == row(4).targets);
    assert(all@[5]@.targets == row(5).targets);
    assert(all@[6]@.targets == row(6).targets);
    assert(all@[7]@.targets == row(7).targets);
    assert(all@[8]@.targets == row(8).targets);
    assert(all@[9]@.targets == row(9).targets);
    assert(all@[10]@.targets == row(10).targets);
    assert(all@[11]@.targets == row(11).targets);
    assert(all@[12]@.targets == row(12).targets);
    all
}

/// Does `key` name the `k`-th entry: its ID or its name, whatever the case of
/// ASCII letters?
pub open spec fn names(key: Seq<char>, k: int) -> bool {
    upper_all(key) == row(k).id || upper_all(key) == upper_all(row(k).name)
}

/// The entry that `key` names.
pub fn find_check(key: &str) -> (r: Option<&'static Check>)
    ensures
        r is Some ==> exists|k: int| 0 <= k < CHECK_COUNT && #[trigger] names(key@, k) && (r->0)@
            == row(k),
        r is None ==> forall|k: int| 0 <= k < CHECK_COUNT ==> !#[trigger] names(key@, k),
{
    let id: String = to_upper(key);
    let all: &'static [Check] = catalog();
    let mut k: usize = 0;
    while k < all.len()
        invariant
            k <= all@.len(),
            all@.len() == CHECK_COUNT,
            forall|j: int| 0 <= j < CHECK_COUNT ==> (#[trigger] all@[j])@ == row(j),
            id@ == upper_all(key@),
            forall|j: int| 0 <= j < k ==> !#[trigger] names(key@, j),
        decreases all@.len() - k,
    {
        assert(all@[k as int]@ == row(k as int));
        if same_text(all[k].id, &id) || same_text_ignoring_case(all[k].name, key) {
            assert(names(key@, k as int));
            return Some(&all[k]);
        }
        k = k + 1;
    }
    None
}

/// The ID of the `k`-th entry is `NF` and its number from one on, in three
/// digits.
pub proof fn law_ids_are_sequential(k: int)
    requires
        0 <= k < CHECK_COUNT,
    ensures
        row(k).id == "NF"@ + numeral((k + 1) as nat, 10, 3, false),
        row(k).id.len() == 5,
        row(k).id[3] == digit((k + 1) as nat / 10, false),
        row(k).id[4] == digit((k + 1) as nat % 10, false),
        upper_all(row(k).id) == row(k).id,
{
    reveal(row);
    reveal_strlit("NF");
    reveal_with_fuel(numeral, 3);
    reveal_strlit("NF001");
    reveal_strlit("NF002");
    reveal_strlit("NF003");
    reveal_strlit("NF004");
    reveal_strlit("NF005");
    reveal_strlit("NF006");
    reveal_strlit("NF007");
    reveal_strlit("NF008");
    reveal_strlit("NF009");
    reveal_strlit("NF010");
    reveal_strlit("NF011");
    reveal_strlit("NF012");
    reveal_strlit("NF013");
    let n = (k + 1) as nat;
    assert(numeral(n, 10, 3, false) == seq![digit(0, false), digit(n / 10, false), digit(n % 10, false)]);
    assert(row(k).id == seq!['N', 'F', '0', digit(n / 10, false), digit(n % 10, false)]);
    assert(row(k).id == "NF"@ + numeral(n, 10, 3, false));
    assert(upper_all(row(k).id) == row(k).id);
}

/// No two entries have one ID.
pub proof fn law_ids_are_unique(j: int, k: int)
    requires
        0 <= j < CHECK_COUNT,
        0 <= k < CHECK_COUNT,
        row(j).id == row(k).id,
    ensures
        j == k,
{
    law_ids_are_sequential(j);
    law_ids_are_sequential(k);
}

/// The length of the name of the `k`-th entry.
spec fn name_len(k: int) -> int {
    if k == 0 {
        21
    } else if k == 1 {
        20
    } else if k == 2 {
        17
    } else if k == 3 {
        21
    } else if k == 4 {
        13
    } else if k == 5 {
        14
    } else if k == 6 {
        23
    } else if k == 7 {
        7
    } else if k == 8 {
        19
    } else if k == 9 {
        18
    } else if k == 10 {
        13
    } else if k == 11 {
        19
    } else {
        12
    }
}

proof fn lemma_name(k: int)
    requires
        0 <= k < CHECK_COUNT,
    ensures
        row(k).name.len() == name_len(k),
        k == 0 ==> row(k).name[0] == 'w',
        k == 3 ==> row(k).name[0] == 't',
        k == 4 ==> row(k).name[0] == 'l',
        k == 10 ==> row(k).name[0] == 'p',
        k == 8 ==> row(k).name[0] == 'i',
        k == 11 ==> row(k).name[0] == 'c',
{
    reveal(row);
    reveal_strlit("windows-reserved-name");
    reveal_strlit("windows-illegal-char");
    reveal_strlit("control-character");
    reveal_strlit("trailing-dot-or-space");
    reveal_strlit("leading-space");
    reveal_strlit("case-collision");
    reveal_strlit("normalization-collision");
    reveal_strlit("non-nfc");
    reveal_strlit("invisible-character");
    reveal_strlit("component-too-long");
    reveal_strlit("path-too-long");
    reveal_strlit("cloud-reserved-name");
    reveal_strlit("invalid-utf8");
}

/// A key names one entry at most.
pub proof fn law_keys_name_one_check(key: Seq<char>, j: int, k: int)
    requires
        0 <= j < CHECK_COUNT,
        0 <= k < CHECK_COUNT,
        names(key, j),
        names(key, k),
    ensures
        j == k,
{
    law_ids_are_sequential(j);
    law_ids_are_sequential(k);
    lemma_name(j);
    lemma_name(k);
    if upper_all(key) == row(j).id && upper_all(key) == row(k).id {
        law_ids_are_unique(j, k);
    } else if j != k {
        assert(upper_all(row(j).name).len() == name_len(j));
        assert(upper_all(row(k).name).len() == name_len(k));
        assert(upper_all(key).len() == 5 || upper_all(key).len() == name_len(j));
        assert(upper_all(row(j).name)[0] == upper(row(j).name[0]));
        assert(upper_all(row(k).name)[0] == upper(row(k).name[0]));
    }
}

/// An entry is found by its ID and by its name.
pub proof fn law_checks_are_found(k: int)
    requires
        0 <= k < CHECK_COUNT,
    ensures
        names(row(k).id, k),
        names(row(k).name, k),
{
    law_ids_are_sequential(k);
}

/// Every check has a target, and no entry has severity info.
pub proof fn law_checks_have_targets(k: int)
    requires
        0 <= k < CHECK_COUNT,
    ensures
        row(k).targets.len() > 0,
        row(k).severity != Severity::Info,
{
    reveal(row);
}

} // verus!
