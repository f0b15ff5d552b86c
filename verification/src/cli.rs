//! The command line: parsing arguments into a command, and what each command
//! prints and exits with.
//!
//! Parsing is a function from arguments to a `Command`, and each reply one from
//! what was read to text and exit code: reading and printing is the caller's part.
//! Exit codes: 0 = clean, 1 = findings that make the run fail or an unapplied
//! plan, 2 = usage or I/O error.

use vstd::prelude::*;
use vstd::string::{StrSliceExecFns, StringExecFns};

use crate::engine::{
    is_selected, reports_of, rows_of, ScanResult, Selection, DEFAULT_MAX_FILES, DEFAULT_MAX_PATH,
};
use crate::fixname::{moves_of, slices_of, texts_of, Rename};
use crate::numerals::value;
use crate::paths::raws_of;
use crate::report::{
    is_failure, join_slices, joined, json_plan, json_report, render_json, render_plan_json,
    render_plan_text, render_text, should_fail, text_plan, text_report, FailOn,
};
use crate::rules::{
    catalog, find_check, law_keys_name_one_check, law_target_labels_differ, names, row, Check, Row,
    Target, CHECK_COUNT,
};
use crate::text::{chars_of, copy_bytes, copy_range, joined_text, same_text};
use crate::utf8::{as_text, decode_lossy};
use crate::VERSION;

verus! {

/// The help text.
pub const USAGE: &'static str = "namefence — lints filenames that will break on Windows, macOS, or cloud sync

USAGE:
    namefence <COMMAND> [OPTIONS] [PATH]

COMMANDS:
    check [PATH]       lint every name under PATH (default: .)
    fix [PATH]         plan collision-safe renames; --apply performs them
    stdin              check newline- or NUL-separated paths read from stdin
    checks             list the check catalog
    explain <CHECK>    the full story and fix recipe for one check
    help               print this help

OPTIONS:
    --format <text|json>       output format (default: text)
    --fail-on <SEV>            exit 1 at this severity or above:
                               error | warning | info | never (default: warning)
    --only <LIST>              run only these checks (IDs or names, comma-separated)
    --skip <LIST>              skip these checks
    --targets <LIST>           platforms to lint for, comma-separated:
                               windows, macos, linux, cloud (default: all)
    --max-path <N>             NF011 path budget in UTF-16 units (default: 240)
    --max-files <N>            stop walking after N entries (default: 200000)
    --apply                    (fix) perform the planned renames
    -0, --null                 (stdin) input is NUL-separated (git ls-files -z)
    -h, --help                 print help
    -V, --version              print version

EXIT CODES:
    0  no findings at or above --fail-on
    1  findings at or above --fail-on (or an unapplied fix plan)
    2  usage or I/O error
";

// ---------------------------------------------------------------------------
// Lists
// ---------------------------------------------------------------------------
/// Is `c` white space (Unicode's property White_Space)?
pub open spec fn is_white(c: char) -> bool {
    ||| '\u{09}' <= c <= '\u{0D}' || c == ' ' || c == '\u{85}' || c == '\u{A0}'
    ||| c == '\u{1680}' || '\u{2000}' <= c <= '\u{200A}' || c == '\u{2028}' || c == '\u{2029}'
    ||| c == '\u{202F}' || c == '\u{205F}' || c == '\u{3000}'
}

/// `s` without white space at its start.
pub open spec fn trim_white_start(s: Seq<char>) -> Seq<char>
    decreases s.len(),
{
    if s.len() > 0 && is_white(s[0]) {
        trim_white_start(s.skip(1))
    } else {
        s
    }
}

/// `s` without white space at its end.
pub open spec fn trim_white_end(s: Seq<char>) -> Seq<char>
    decreases s.len(),
{
    if s.len() > 0 && is_white(s.last()) {
        trim_white_end(s.drop_last())
    } else {
        s
    }
}

/// `s` without white space at its ends.
pub open spec fn trim_white(s: Seq<char>) -> Seq<char> {
    trim_white_end(trim_white_start(s))
}

/// The first comma in `s` from `from` on, or its end.
pub open spec fn next_comma(s: Seq<char>, from: int) -> int
    decreases s.len() - from,
{
    if from >= s.len() || s[from] == ',' {
        from
    } else {
        next_comma(s, from + 1)
    }
}

pub proof fn lemma_next_comma(s: Seq<char>, from: int)
    requires
        0 <= from <= s.len(),
    ensures
        from <= next_comma(s, from) <= s.len(),
    decreases s.len() - from,
{
    if from < s.len() && s[from] != ',' {
        lemma_next_comma(s, from + 1);
    }
}

/// The items of a comma-separated list from `from` on: without white space at
/// their ends, and without empty ones.
pub open spec fn items_from(s: Seq<char>, from: int) -> Seq<Seq<char>>
    decreases s.len() - from,
    when 0 <= from <= s.len()
{
    proof {
        lemma_next_comma(s, from);
    }
    let end = next_comma(s, from);
    let item = trim_white(s.subrange(from, end));
    let here = if item.len() > 0 {
        seq![item]
    } else {
        seq![]
    };
    if end >= s.len() {
        here
    } else {
        here + items_from(s, end + 1)
    }
}

fn is_white_char(c: char) -> (r: bool)
    ensures
        r == is_white(c),
{
    ('\u{09}' <= c && c <= '\u{0D}') || c == ' ' || c == '\u{85}' || c == '\u{A0}' || c
        == '\u{1680}' || ('\u{2000}' <= c && c <= '\u{200A}') || c == '\u{2028}' || c == '\u{2029}'
        || c == '\u{202F}' || c == '\u{205F}' || c == '\u{3000}'
}

/// The part of `s` between `from` and `to`, without white space at its ends.
fn trimmed_part(s: &str, chars: &[char], from: usize, to: usize) -> (r: String)
    requires
        chars@ == s@,
        from <= to <= s@.len(),
    ensures
        r@ == trim_white(s@.subrange(from as int, to as int)),
{
    let ghost part = s@.subrange(from as int, to as int);
    let mut a: usize = from;
    assert(part.skip(0) == part);
    while a < to && is_white_char(chars[a])
        invariant
            from <= a <= to <= s@.len(),
            chars@ == s@,
            part == s@.subrange(from as int, to as int),
            trim_white_start(part) == trim_white_start(part.skip(a - from)),
        decreases to - a,
    {
        assert(part.skip(a - from)[0] == s@[a as int]);
        assert(part.skip(a - from).skip(1) == part.skip(a + 1 - from));
        a = a + 1;
    }
    let ghost rest = s@.subrange(a as int, to as int);
    assert(part.skip(a - from) == rest);
    assert(trim_white_start(part) == rest);
    let mut b: usize = to;
    assert(rest.take(b - a) == rest);
    while b > a && is_white_char(chars[b - 1])
        invariant
            a <= b <= to <= s@.len(),
            chars@ == s@,
            rest == s@.subrange(a as int, to as int),
            trim_white_end(rest) == trim_white_end(rest.take(b - a)),
        decreases b,
    {
        assert(rest.take(b - a).last() == s@[b - 1]);
        assert(rest.take(b - a).drop_last() == rest.take(b - 1 - a));
        b = b - 1;
    }
    assert(rest.take(b - a) == s@.subrange(a as int, b as int));
    assert(b > a ==> rest.take(b - a).last() == s@[b - 1]);
    s.substring_char(a, b).to_owned()
}

/// Splits a comma-separated list into its items.
fn split_list(list: &str) -> (r: Vec<String>)
    ensures
        texts_of(r@) == items_from(list@, 0),
{
    let chars: Vec<char> = chars_of(list);
    let n: usize = chars.len();
    let ghost whole = items_from(list@, 0);
    let ghost mut done: Seq<Seq<char>> = seq![];
    let mut out: Vec<String> = Vec::new();
    let mut from: usize = 0;
    assert(texts_of(out@) == done);
    assert(done + items_from(list@, 0) == whole);
    loop
        invariant
            from <= n == list@.len(),
            chars@ == list@,
            texts_of(out@) == done,
            whole == items_from(list@, 0),
            whole == done + items_from(list@, from as int),
        decreases n - from,
    {
        let ghost done0 = done;
        let mut end: usize = from;
        while end < n && chars[end] != ','
            invariant
                from <= end <= n == list@.len(),
                chars@ == list@,
                next_comma(list@, from as int) == next_comma(list@, end as int),
            decreases n - end,
        {
            end = end + 1;
        }
        assert(end == next_comma(list@, from as int));
        let item: String = trimmed_part(list, &chars, from, end);
        let ghost rest = items_from(list@, end + 1);
        let ghost none = Seq::<Seq<char>>::empty();
        if item.as_str().unicode_len() > 0 {
            let ghost text = item@;
            let ghost before = out@;
            out.push(item);
            proof {
                assert(texts_of(out@) == texts_of(before).push(text));
                done = done0.push(text);
                assert(end < n ==> items_from(list@, from as int) == seq![text] + rest);
                assert(end == n ==> items_from(list@, from as int) == seq![text]);
                assert(done0 + (seq![text] + rest) == done + rest);
                assert(done0 + seq![text] == done);
            }
        } else {
            proof {
                assert(end < n ==> items_from(list@, from as int) == none + rest);
                assert(end == n ==> items_from(list@, from as int) == none);
                assert(none + rest == rest);
                assert(done0 + none == done);
            }
        }
        if end == n {
            assert(whole == done);
            return out;
        }
        from = end + 1;
    }
}

/// The entry that `key` names.
pub open spec fn named_check(key: Seq<char>) -> Option<Row> {
    if exists|k: int| 0 <= k < CHECK_COUNT && #[trigger] names(key, k) {
        Some(row(choose|k: int| 0 <= k < CHECK_COUNT && #[trigger] names(key, k)))
    } else {
        None
    }
}

/// The target of that name.
pub open spec fn named_target(s: Seq<char>) -> Option<Target> {
    if exists|t: Target| #[trigger] t.label() == s {
        Some(choose|t: Target| #[trigger] t.label() == s)
    } else {
        None
    }
}

/// The entries that the first `k` items name, or the complaint about the first
/// that names none.
pub open spec fn named_checks(items: Seq<Seq<char>>, k: int) -> Result<Seq<Row>, Seq<char>>
    decreases k,
{
    if k <= 0 {
        Ok(seq![])
    } else {
        match named_checks(items, k - 1) {
            Err(e) => Err(e),
            Ok(v) => match named_check(items[k - 1]) {
                Some(c) => Ok(v.push(c)),
                None => Err("unknown check `"@ + items[k - 1] + "` (see `namefence checks`)"@),
            },
        }
    }
}

/// The targets that the first `k` items name, or the complaint about the first
/// that names none.
pub open spec fn named_targets(items: Seq<Seq<char>>, k: int) -> Result<Seq<Target>, Seq<char>>
    decreases k,
{
    if k <= 0 {
        Ok(seq![])
    } else {
        match named_targets(items, k - 1) {
            Err(e) => Err(e),
            Ok(v) => match named_target(items[k - 1]) {
                Some(t) => Ok(v.push(t)),
                None => Err(
                    "unknown target `"@ + items[k - 1]
                        + "` (expected windows, macos, linux or cloud)"@,
                ),
            },
        }
    }
}

/// The entries that a list names.
pub open spec fn check_list(list: Seq<char>) -> Result<Seq<Row>, Seq<char>> {
    let items = items_from(list, 0);
    if items.len() == 0 {
        Err("empty check list"@)
    } else {
        named_checks(items, items.len() as int)
    }
}

/// The targets that a list names.
pub open spec fn target_list(list: Seq<char>) -> Result<Seq<Target>, Seq<char>> {
    let items = items_from(list, 0);
    if items.len() == 0 {
        Err("empty target list"@)
    } else {
        named_targets(items, items.len() as int)
    }
}

/// The entry that `key` names.
fn lookup(key: &str) -> (r: Option<&'static Check>)
    ensures
        r is Some == named_check(key@) is Some,
        r is Some ==> Some((r->0)@) == named_check(key@),
{
    let found: Option<&'static Check> = find_check(key);
    proof {
        if let Some(c) = found {
            let k = choose|k: int|
                0 <= k < CHECK_COUNT && #[trigger] names(key@, k) && c@ == row(k);
            let j = choose|j: int| 0 <= j < CHECK_COUNT && #[trigger] names(key@, j);
            law_keys_name_one_check(key@, j, k);
        }
    }
    found
}

/// Reads a list of checks.
fn parse_check_list(list: &str) -> (r: Result<Vec<&'static Check>, String>)
    ensures
        r is Ok == check_list(list@) is Ok,
        r is Ok ==> rows_of(r->Ok_0@) == check_list(list@)->Ok_0,
        r is Err ==> r->Err_0@ == check_list(list@)->Err_0,
{
    let items: Vec<String> = split_list(list);
    let ghost all = texts_of(items@);
    let mut out: Vec<&'static Check> = Vec::new();
    let mut i: usize = 0;
    if items.len() == 0 {
        return Err("empty check list".to_owned());
    }
    assert(rows_of(out@) == Seq::<Row>::empty());
    while i < items.len()
        invariant
            i <= items@.len(),
            items@.len() > 0,
            all == texts_of(items@),
            all == items_from(list@, 0),
            named_checks(all, i as int) is Ok,
            rows_of(out@) == named_checks(all, i as int)->Ok_0,
        decreases items@.len() - i,
    {
        assert(all[i as int] == items@[i as int]@);
        match lookup(&items[i]) {
            Some(c) => {
                let ghost before = out@;
                out.push(c);
                assert(rows_of(out@) == rows_of(before).push(c@));
            },
            None => {
                let mut e: String = "unknown check `".to_owned();
                e.append(&items[i]);
                e.append("` (see `namefence checks`)");
                proof {
                    lemma_checks_err(all, i + 1, all.len() as int);
                }
                return Err(e);
            },
        }
        i = i + 1;
    }
    Ok(out)
}

/// A complaint about an early item is the complaint about the list.
proof fn lemma_checks_err(items: Seq<Seq<char>>, k: int, n: int)
    requires
        k <= n,
        named_checks(items, k) is Err,
    ensures
        named_checks(items, n) == named_checks(items, k),
    decreases n - k,
{
    if k < n {
        lemma_checks_err(items, k, n - 1);
    }
}

proof fn lemma_targets_err(items: Seq<Seq<char>>, k: int, n: int)
    requires
        k <= n,
        named_targets(items, k) is Err,
    ensures
        named_targets(items, n) == named_targets(items, k),
    decreases n - k,
{
    if k < n {
        lemma_targets_err(items, k, n - 1);
    }
}

/// The target of that name.
fn lookup_target(s: &str) -> (r: Option<Target>)
    ensures
        r == named_target(s@),
{
    let found: Option<Target> = Target::parse(s);
    proof {
        if let Some(t) = found {
            assert(t.label() == s@);
            let u = choose|u: Target| #[trigger] u.label() == s@;
            law_target_labels_differ(t, u);
        }
    }
    found
}

/// Reads a list of targets.
fn parse_target_list(list: &str) -> (r: Result<Vec<Target>, String>)
    ensures
        r is Ok == target_list(list@) is Ok,
        r is Ok ==> r->Ok_0@ == target_list(list@)->Ok_0,
        r is Err ==> r->Err_0@ == target_list(list@)->Err_0,
{
    let items: Vec<String> = split_list(list);
    let ghost all = texts_of(items@);
    let mut out: Vec<Target> = Vec::new();
    let mut i: usize = 0;
    if items.len() == 0 {
        return Err("empty target list".to_owned());
    }
    while i < items.len()
        invariant
            i <= items@.len(),
            items@.len() > 0,
            all == texts_of(items@),
            all == items_from(list@, 0),
            named_targets(all, i as int) is Ok,
            out@ == named_targets(all, i as int)->Ok_0,
        decreases items@.len() - i,
    {
        assert(all[i as int] == items@[i as int]@);
        match lookup_target(&items[i]) {
            Some(t) => {
                out.push(t);
            },
            None => {
                let mut e: String = "unknown target `".to_owned();
                e.append(&items[i]);
                e.append("` (expected windows, macos, linux or cloud)");
                proof {
                    lemma_targets_err(all, i + 1, all.len() as int);
                }
                return Err(e);
            },
        }
        i = i + 1;
    }
    Ok(out)
}

// ---------------------------------------------------------------------------
// Numbers
// ---------------------------------------------------------------------------
/// Is every character of `s` a decimal digit?
pub open spec fn is_digits(s: Seq<char>) -> bool {
    forall|i: int| 0 <= i < s.len() ==> '0' <= #[trigger] s[i] <= '9'
}

/// The number that `s` stands for: decimal digits, with or without a plus before
/// them, of a value that a `usize` can hold.
pub open spec fn number_of(s: Seq<char>) -> Option<int> {
    let digits = if s.len() > 0 && s[0] == '+' {
        s.skip(1)
    } else {
        s
    };
    if digits.len() > 0 && is_digits(digits) && value(digits) <= usize::MAX {
        Some(value(digits))
    } else {
        None
    }
}

/// More digits do not make a number smaller.
proof fn lemma_value_grows(s: Seq<char>, k: int)
    requires
        is_digits(s),
        0 <= k <= s.len(),
    ensures
        0 <= value(s.take(k)) <= value(s),
    decreases s.len(),
{
    if s.len() == 0 {
        assert(s.take(k) == s);
    } else {
        let u = s.drop_last();
        assert forall|i: int| 0 <= i < u.len() implies '0' <= #[trigger] u[i] <= '9' by {
            assert(u[i] == s[i]);
        }
        assert('0' <= s[s.len() - 1] <= '9');
        if k == s.len() {
            assert(s.take(k) == s);
            lemma_value_grows(u, k - 1);
            assert(u.take(k - 1) == u);
        } else {
            assert(s.take(k) == u.take(k));
            lemma_value_grows(u, k);
        }
    }
}

/// Reads a number.
fn parse_number(s: &str) -> (r: Option<usize>)
    ensures
        r is Some == number_of(s@) is Some,
        r is Some ==> r->0 == number_of(s@)->0,
{
    let chars: Vec<char> = chars_of(s);
    let n: usize = chars.len();
    let start: usize = if n > 0 && chars[0] == '+' {
        1
    } else {
        0
    };
    let ghost digits = s@.skip(start as int);
    assert(start == 0 ==> digits == s@);
    if start == n {
        return None;
    }
    let most: u128 = usize::MAX as u128;
    let mut total: u128 = 0;
    let mut i: usize = start;
    assert(value(digits.take(0)) == 0);
    while i < n
        invariant
            start <= i <= n == s@.len(),
            chars@ == s@,
            digits == s@.skip(start as int),
            most == usize::MAX,
            total <= most,
            total == value(digits.take(i - start)),
            forall|j: int| 0 <= j < i - start ==> '0' <= #[trigger] digits[j] <= '9',
            number_of(s@) == if digits.len() > 0 && is_digits(digits) && value(digits)
                <= usize::MAX {
                Some(value(digits))
            } else {
                None
            },
        decreases n - i,
    {
        let c: char = chars[i];
        let ghost k = i - start;
        assert(digits[k] == c);
        if !('0' <= c && c <= '9') {
            assert(!is_digits(digits));
            return None;
        }
        assert(digits.take(k + 1).drop_last() == digits.take(k));
        total = total * 10 + (c as u32 - 0x30) as u128;
        assert(total == value(digits.take(k + 1)));
        if total > most {
            proof {
                if is_digits(digits) {
                    lemma_value_grows(digits, k + 1);
                }
            }
            return None;
        }
        i = i + 1;
    }
    assert(digits.take(digits.len() as int) == digits);
    Some(total as usize)
}

// ---------------------------------------------------------------------------
// Options and commands
// ---------------------------------------------------------------------------
/// An output format.
#[derive(Debug, Clone, Copy, PartialEq, Eq, Structural)]
pub enum Format {
    Text,
    Json,
}

/// The options that `check`, `fix` and `stdin` share.
pub struct Opts {
    pub format: Format,
    pub fail_on: FailOn,
    pub only: Vec<&'static Check>,
    pub skip: Vec<&'static Check>,
    pub targets: Vec<Target>,
    pub max_path: usize,
    pub max_files: usize,
}

/// What options say.
pub ghost struct Options {
    pub format: Format,
    pub fail_on: FailOn,
    pub only: Seq<Row>,
    pub skip: Seq<Row>,
    pub targets: Seq<Target>,
    pub max_path: int,
    pub max_files: int,
}

impl View for Opts {
    type V = Options;

    open spec fn view(&self) -> Options {
        Options {
            format: self.format,
            fail_on: self.fail_on,
            only: rows_of(self.only@),
            skip: rows_of(self.skip@),
            targets: self.targets@,
            max_path: self.max_path as int,
            max_files: self.max_files as int,
        }
    }
}

/// Is `sel` the selection that options make?
pub open spec fn is_selection(sel: Selection, opts: Options) -> bool {
    &&& sel.enabled@ == Seq::new(
        CHECK_COUNT as nat,
        |k: int| is_selected(k, opts.only, opts.skip, opts.targets),
    )
    &&& sel.max_path == opts.max_path
    &&& sel.max_files == opts.max_files
}

/// The options where none is given.
pub open spec fn default_options() -> Options {
    Options {
        format: Format::Text,
        fail_on: FailOn::Warning,
        only: seq![],
        skip: seq![],
        targets: seq![Target::Windows, Target::Macos, Target::Linux, Target::Cloud],
        max_path: DEFAULT_MAX_PATH as int,
        max_files: DEFAULT_MAX_FILES as int,
    }
}

impl Opts {
    /// The selection that the options make.
    pub fn selection(&self) -> (r: Selection)
        ensures
            is_selection(r, self@),
    {
        let sel: Selection = Selection::build(&self.only, &self.skip, &self.targets);
        Selection { enabled: sel.enabled, max_path: self.max_path, max_files: self.max_files }
    }
}

impl Default for Opts {
    fn default() -> (r: Opts)
        ensures
            r@ == default_options(),
    {
        let mut targets: Vec<Target> = Vec::new();
        targets.push(Target::Windows);
        targets.push(Target::Macos);
        targets.push(Target::Linux);
        targets.push(Target::Cloud);
        let r = Opts {
            format: Format::Text,
            fail_on: FailOn::Warning,
            only: Vec::new(),
            skip: Vec::new(),
            targets,
            max_path: DEFAULT_MAX_PATH,
            max_files: DEFAULT_MAX_FILES,
        };
        assert(r@.only == default_options().only);
        assert(r@.skip == default_options().skip);
        assert(r@.targets == default_options().targets);
        r
    }
}

/// What is to be done. Paths are raw bytes.
pub enum Command {
    Check { path: Vec<u8>, opts: Opts },
    Fix { path: Vec<u8>, opts: Opts, apply: bool },
    Stdin { opts: Opts, null: bool },
    Checks,
    Explain { key: String },
    Help,
    Version,
}

/// What a command says.
pub ghost enum Task {
    Check { path: Seq<u8>, opts: Options },
    Fix { path: Seq<u8>, opts: Options, apply: bool },
    Stdin { opts: Options, null: bool },
    Checks,
    Explain { key: Seq<char> },
    Help,
    Version,
}

impl View for Command {
    type V = Task;

    open spec fn view(&self) -> Task {
        match self {
            Command::Check { path, opts } => Task::Check { path: path@, opts: opts@ },
            Command::Fix { path, opts, apply } => Task::Fix {
                path: path@,
                opts: opts@,
                apply: *apply,
            },
            Command::Stdin { opts, null } => Task::Stdin { opts: opts@, null: *null },
            Command::Checks => Task::Checks,
            Command::Explain { key } => Task::Explain { key: key@ },
            Command::Help => Task::Help,
            Command::Version => Task::Version,
        }
    }
}

/// What an argument asks for instead of the command's work.
#[derive(Debug, Clone, Copy, PartialEq, Eq, Structural)]
pub enum Asks {
    Work,
    Help,
    Version,
}

/// What `arg` asks for.
pub open spec fn asked(arg: Seq<char>) -> Asks {
    if arg == "-h"@ || arg == "--help"@ {
        Asks::Help
    } else if arg == "-V"@ || arg == "--version"@ {
        Asks::Version
    } else {
        Asks::Work
    }
}

/// What the first of the arguments from `i` on that does not ask for work asks for.
pub open spec fn asked_from(texts: Seq<Seq<char>>, i: int) -> Asks
    decreases texts.len() - i,
{
    if i >= texts.len() {
        Asks::Work
    } else if asked(texts[i]) != Asks::Work {
        asked(texts[i])
    } else {
        asked_from(texts, i + 1)
    }
}

/// The command for what is asked, where `work` is that of the arguments.
pub open spec fn task_for(asks: Asks, work: Result<Task, Seq<char>>) -> Result<Task, Seq<char>> {
    match asks {
        Asks::Work => work,
        Asks::Help => Ok(Task::Help),
        Asks::Version => Ok(Task::Version),
    }
}

/// What has been read of the arguments behind the name of a command.
struct State {
    opts: Opts,
    path: Option<Vec<u8>>,
    apply: bool,
    null: bool,
    asks: Asks,
}

/// What has been read of the arguments behind the name of a command.
pub ghost struct Reading {
    pub opts: Options,
    pub path: Option<Seq<u8>>,
    pub apply: bool,
    pub null: bool,
    pub asks: Asks,
}

impl View for State {
    type V = Reading;

    closed spec fn view(&self) -> Reading {
        Reading {
            opts: self.opts@,
            path: match self.path {
                Some(p) => Some(p@),
                None => None,
            },
            apply: self.apply,
            null: self.null,
            asks: self.asks,
        }
    }
}

/// Is `arg` an option that takes a value?
pub open spec fn takes_value(arg: Seq<char>) -> bool {
    arg == "--format"@ || arg == "--fail-on"@ || arg == "--only"@ || arg == "--skip"@ || arg
        == "--targets"@ || arg == "--max-path"@ || arg == "--max-files"@
}

/// The policy of that name.
pub open spec fn named_policy(s: Seq<char>) -> Option<FailOn> {
    if s == "never"@ {
        Some(FailOn::Never)
    } else if s == "info"@ {
        Some(FailOn::Info)
    } else if s == "warning"@ {
        Some(FailOn::Warning)
    } else if s == "error"@ {
        Some(FailOn::Error)
    } else {
        None
    }
}

/// The complaint about a value that is no number.
pub open spec fn not_a_number(arg: Seq<char>, v: Seq<char>) -> Seq<char> {
    arg + " needs a number, got `"@ + v + "`"@
}

/// The options after `arg` with the value `v`, or the complaint about it.
pub open spec fn with_value(o: Options, arg: Seq<char>, v: Seq<char>) -> Result<
    Options,
    Seq<char>,
> {
    if arg == "--format"@ {
        if v == "text"@ {
            Ok(Options { format: Format::Text, ..o })
        } else if v == "json"@ {
            Ok(Options { format: Format::Json, ..o })
        } else {
            Err("unknown format `"@ + v + "` (text or json)"@)
        }
    } else if arg == "--fail-on"@ {
        match named_policy(v) {
            Some(f) => Ok(Options { fail_on: f, ..o }),
            None => Err("unknown --fail-on `"@ + v + "` (error, warning, info, never)"@),
        }
    } else if arg == "--only"@ {
        match check_list(v) {
            Ok(rows) => Ok(Options { only: rows, ..o }),
            Err(e) => Err(e),
        }
    } else if arg == "--skip"@ {
        match check_list(v) {
            Ok(rows) => Ok(Options { skip: rows, ..o }),
            Err(e) => Err(e),
        }
    } else if arg == "--targets"@ {
        match target_list(v) {
            Ok(t) => Ok(Options { targets: t, ..o }),
            Err(e) => Err(e),
        }
    } else if arg == "--max-path"@ {
        match number_of(v) {
            Some(n) => Ok(Options { max_path: n, ..o }),
            None => Err(not_a_number(arg, v)),
        }
    } else {
        match number_of(v) {
            Some(n) => Ok(Options { max_files: n, ..o }),
            None => Err(not_a_number(arg, v)),
        }
    }
}

/// What has been read after the argument `arg` that takes no value, or the
/// complaint about it. `sub` is the command, and `raw` the argument in bytes.
pub open spec fn with_argument(
    st: Reading,
    sub: Seq<char>,
    arg: Seq<char>,
    raw: Seq<u8>,
) -> Result<Reading, Seq<char>> {
    if arg == "--apply"@ && sub == "fix"@ {
        Ok(Reading { apply: true, ..st })
    } else if (arg == "-0"@ || arg == "--null"@) && sub == "stdin"@ {
        Ok(Reading { null: true, ..st })
    } else if asked(arg) != Asks::Work {
        Ok(Reading { asks: asked(arg), ..st })
    } else if arg.len() > 0 && arg[0] == '-' {
        Err("unknown option `"@ + arg + "` for `"@ + sub + "` (see --help)"@)
    } else if sub == "stdin"@ {
        Err("stdin reads paths from standard input, not arguments"@)
    } else if st.path is Some {
        Err("unexpected extra argument `"@ + arg + "`"@)
    } else {
        Ok(Reading { path: Some(raw), ..st })
    }
}

/// What has been read after the argument at `i` and, if it takes one, its value:
/// that, and where the next argument stands; or the complaint.
pub open spec fn read_argument(
    st: Reading,
    sub: Seq<char>,
    raws: Seq<Seq<u8>>,
    texts: Seq<Seq<char>>,
    i: int,
) -> Result<(Reading, int), Seq<char>> {
    let arg = texts[i];
    if takes_value(arg) {
        if i + 1 >= texts.len() {
            Err(arg + " needs a value"@)
        } else {
            match with_value(st.opts, arg, texts[i + 1]) {
                Ok(opts) => Ok((Reading { opts, ..st }, i + 2)),
                Err(e) => Err(e),
            }
        }
    } else {
        match with_argument(st, sub, arg, raws[i]) {
            Ok(next) => Ok((next, i + 1)),
            Err(e) => Err(e),
        }
    }
}

/// What has been read after all arguments from `i` on, or the first complaint. What
/// follows an argument that asks for the help or the version is not read.
pub open spec fn read_arguments(
    st: Reading,
    sub: Seq<char>,
    raws: Seq<Seq<u8>>,
    texts: Seq<Seq<char>>,
    i: int,
) -> Result<Reading, Seq<char>>
    decreases texts.len() - i,
{
    if i >= texts.len() {
        Ok(st)
    } else {
        match read_argument(st, sub, raws, texts, i) {
            Err(e) => Err(e),
            Ok((next, j)) => if j <= i || next.asks != Asks::Work {
                Ok(next)
            } else {
                read_arguments(next, sub, raws, texts, j)
            },
        }
    }
}

/// The reading before the first argument.
pub open spec fn no_arguments() -> Reading {
    Reading {
        opts: default_options(),
        path: None,
        apply: false,
        null: false,
        asks: Asks::Work,
    }
}

/// The path where none is given.
pub open spec fn path_or_dot(path: Option<Seq<u8>>) -> Seq<u8> {
    match path {
        Some(p) => p,
        None => seq![0x2Eu8],
    }
}

/// The command that arguments make, or the complaint about them. Each argument is
/// given in bytes and decoded.
pub open spec fn parsed(raws: Seq<Seq<u8>>, texts: Seq<Seq<char>>) -> Result<Task, Seq<char>> {
    if texts.len() == 0 {
        Ok(Task::Help)
    } else {
        let sub = texts[0];
        if sub == "-h"@ || sub == "--help"@ || sub == "help"@ {
            Ok(Task::Help)
        } else if sub == "-V"@ || sub == "--version"@ || sub == "version"@ {
            Ok(Task::Version)
        } else if sub == "checks"@ {
            task_for(asked_from(texts, 1), Ok(Task::Checks))
        } else if sub == "explain"@ {
            task_for(
                asked_from(texts, 1),
                if texts.len() < 2 {
                    Err("explain needs a check ID or name, e.g. `namefence explain NF006`"@)
                } else {
                    Ok(Task::Explain { key: texts[1] })
                },
            )
        } else if sub == "check"@ || sub == "fix"@ || sub == "stdin"@ {
            match read_arguments(no_arguments(), sub, raws, texts, 1) {
                Err(e) => Err(e),
                Ok(st) => task_for(
                    st.asks,
                    Ok(
                        if sub == "check"@ {
                            Task::Check { path: path_or_dot(st.path), opts: st.opts }
                        } else if sub == "fix"@ {
                            Task::Fix { path: path_or_dot(st.path), opts: st.opts, apply: st.apply }
                        } else {
                            Task::Stdin { opts: st.opts, null: st.null }
                        },
                    ),
                ),
            }
        } else {
            Err("unknown command `"@ + sub + "` (see --help)"@)
        }
    }
}

/// Sets the option `arg` to the value `v`.
fn set_option(opts: &mut Opts, arg: &str, v: &str) -> (r: Result<(), String>)
    requires
        takes_value(arg@),
    ensures
        r is Ok == with_value(old(opts)@, arg@, v@) is Ok,
        r is Ok ==> with_value(old(opts)@, arg@, v@) == Ok::<Options, Seq<char>>(final(opts)@),
        r is Err ==> with_value(old(opts)@, arg@, v@) == Err::<Options, Seq<char>>(r->Err_0@),
{
    if same_text(arg, "--format") {
        if same_text(v, "text") {
            opts.format = Format::Text;
        } else if same_text(v, "json") {
            opts.format = Format::Json;
        } else {
            return Err(joined_text("unknown format `", v, "` (text or json)"));
        }
    } else if same_text(arg, "--fail-on") {
        match FailOn::parse(v) {
            Some(f) => {
                proof {
                    lemma_policy(v@, f);
                }
                opts.fail_on = f;
            },
            None => {
                proof {
                    assert(v@ != FailOn::Never.label() && v@ != FailOn::Info.label() && v@
                        != FailOn::Warning.label() && v@ != FailOn::Error.label());
                }
                return Err(
                    joined_text("unknown --fail-on `", v, "` (error, warning, info, never)"),
                );
            },
        }
    } else if same_text(arg, "--only") {
        match parse_check_list(v) {
            Ok(list) => {
                opts.only = list;
            },
            Err(e) => {
                return Err(e);
            },
        }
    } else if same_text(arg, "--skip") {
        match parse_check_list(v) {
            Ok(list) => {
                opts.skip = list;
            },
            Err(e) => {
                return Err(e);
            },
        }
    } else if same_text(arg, "--targets") {
        match parse_target_list(v) {
            Ok(list) => {
                opts.targets = list;
            },
            Err(e) => {
                return Err(e);
            },
        }
    } else {
        match parse_number(v) {
            Some(n) => {
                if same_text(arg, "--max-path") {
                    opts.max_path = n;
                } else {
                    opts.max_files = n;
                }
            },
            None => {
                let mut e: String = arg.to_owned();
                e.append(" needs a number, got `");
                e.append(v);
                e.append("`");
                return Err(e);
            },
        }
    }
    Ok(())
}

proof fn lemma_policy(s: Seq<char>, f: FailOn)
    requires
        s == f.label(),
    ensures
        named_policy(s) == Some(f),
{
    reveal_strlit("never");
    reveal_strlit("info");
    reveal_strlit("warning");
    reveal_strlit("error");
    assert("never"@[0] == 'n' && "info"@[0] == 'i' && "warning"@[0] == 'w' && "error"@[0] == 'e');
}

/// What `arg` asks for.
fn what_is_asked(arg: &str) -> (r: Asks)
    ensures
        r == asked(arg@),
{
    if same_text(arg, "-h") || same_text(arg, "--help") {
        Asks::Help
    } else if same_text(arg, "-V") || same_text(arg, "--version") {
        Asks::Version
    } else {
        Asks::Work
    }
}

/// What the first of the arguments from the second on that does not ask for work
/// asks for.
fn find_asked(texts: &[String]) -> (r: Asks)
    requires
        texts@.len() > 0,
    ensures
        r == asked_from(texts_of(texts@), 1),
{
    let ghost all = texts_of(texts@);
    let mut i: usize = 1;
    while i < texts.len()
        invariant
            1 <= i <= texts@.len(),
            all == texts_of(texts@),
            asked_from(all, 1) == asked_from(all, i as int),
        decreases texts@.len() - i,
    {
        assert(all[i as int] == texts@[i as int]@);
        let asks: Asks = what_is_asked(texts[i].as_str());
        if asks != Asks::Work {
            return asks;
        }
        i = i + 1;
    }
    Asks::Work
}

/// Takes an argument that takes no value.
fn take_argument(st: &mut State, sub: &str, arg: &str, raw: &[u8]) -> (r: Result<(), String>)
    ensures
        r is Ok == with_argument(old(st)@, sub@, arg@, raw@) is Ok,
        r is Ok ==> with_argument(old(st)@, sub@, arg@, raw@) == Ok::<Reading, Seq<char>>(
            final(st)@,
        ),
        r is Err ==> with_argument(old(st)@, sub@, arg@, raw@) == Err::<Reading, Seq<char>>(
            r->Err_0@,
        ),
{
    if same_text(arg, "--apply") && same_text(sub, "fix") {
        st.apply = true;
    } else if (same_text(arg, "-0") || same_text(arg, "--null")) && same_text(sub, "stdin") {
        st.null = true;
    } else if what_is_asked(arg) != Asks::Work {
        st.asks = what_is_asked(arg);
    } else if arg.unicode_len() > 0 && arg.get_char(0) == '-' {
        let mut e: String = "unknown option `".to_owned();
        e.append(arg);
        e.append("` for `");
        e.append(sub);
        e.append("` (see --help)");
        return Err(e);
    } else if same_text(sub, "stdin") {
        return Err("stdin reads paths from standard input, not arguments".to_owned());
    } else if st.path.is_some() {
        return Err(joined_text("unexpected extra argument `", arg, "`"));
    } else {
        st.path = Some(copy_bytes(raw));
    }
    Ok(())
}

/// Is `arg` an option that takes a value?
fn has_value(arg: &str) -> (r: bool)
    ensures
        r == takes_value(arg@),
{
    same_text(arg, "--format") || same_text(arg, "--fail-on") || same_text(arg, "--only")
        || same_text(arg, "--skip") || same_text(arg, "--targets") || same_text(arg, "--max-path")
        || same_text(arg, "--max-files")
}

/// Reads the arguments behind the name of a command.
fn take_arguments(args: &[Vec<u8>], texts: &[String]) -> (r: Result<State, String>)
    requires
        texts@.len() == args@.len(),
        texts@.len() > 0,
    ensures
        ({
            let m = read_arguments(
                no_arguments(),
                texts@[0]@,
                raws_of(args@),
                texts_of(texts@),
                1,
            );
            &&& r is Ok == m is Ok
            &&& r is Ok ==> r->Ok_0@ == m->Ok_0
            &&& r is Err ==> r->Err_0@ == m->Err_0
        }),
{
    let ghost raws = raws_of(args@);
    let ghost all = texts_of(texts@);
    let ghost whole = read_arguments(no_arguments(), texts@[0]@, raws, all, 1);
    let sub: &str = texts[0].as_str();
    let mut st = State {
        opts: Opts::default(),
        path: None,
        apply: false,
        null: false,
        asks: Asks::Work,
    };
    let mut i: usize = 1;
    assert(st@ == no_arguments());
    while i < texts.len()
        invariant
            1 <= i,
            texts@.len() == args@.len(),
            raws == raws_of(args@),
            all == texts_of(texts@),
            sub@ == texts@[0]@,
            whole == read_arguments(no_arguments(), texts@[0]@, raws, all, 1),
            whole == read_arguments(st@, sub@, raws, all, i as int),
            st.asks == Asks::Work,
        decreases texts@.len() + 2 - i,
    {
        assert(all[i as int] == texts@[i as int]@);
        assert(raws[i as int] == args@[i as int]@);
        let ghost before = st@;
        let arg: &str = texts[i].as_str();
        if has_value(arg) {
            if i + 1 >= texts.len() {
                let mut e: String = arg.to_owned();
                e.append(" needs a value");
                return Err(e);
            }
            assert(all[i + 1] == texts@[i + 1]@);
            match set_option(&mut st.opts, arg, texts[i + 1].as_str()) {
                Ok(_) => {},
                Err(e) => {
                    return Err(e);
                },
            }
            assert(read_argument(before, sub@, raws, all, i as int) == Ok::<
                (Reading, int),
                Seq<char>,
            >((st@, i + 2)));
            i = i + 2;
        } else {
            match take_argument(&mut st, sub, arg, &args[i]) {
                Ok(_) => {},
                Err(e) => {
                    return Err(e);
                },
            }
            assert(read_argument(before, sub@, raws, all, i as int) == Ok::<
                (Reading, int),
                Seq<char>,
            >((st@, i + 1)));
            if st.asks != Asks::Work {
                return Ok(st);
            }
            i = i + 1;
        }
    }
    Ok(st)
}

/// Reads the arguments (without the program's name), each given in bytes and
/// decoded, as a command.
pub fn parse_decoded(args: &[Vec<u8>], texts: &[String]) -> (r: Result<Command, String>)
    requires
        texts@.len() == args@.len(),
    ensures
        r is Ok == parsed(raws_of(args@), texts_of(texts@)) is Ok,
        r is Ok ==> r->Ok_0@ == parsed(raws_of(args@), texts_of(texts@))->Ok_0,
        r is Err ==> r->Err_0@ == parsed(raws_of(args@), texts_of(texts@))->Err_0,
{
    if texts.len() == 0 {
        return Ok(Command::Help);
    }
    let ghost all = texts_of(texts@);
    assert(all[0] == texts@[0]@);
    let sub: &str = texts[0].as_str();
    if same_text(sub, "-h") || same_text(sub, "--help") || same_text(sub, "help") {
        return Ok(Command::Help);
    }
    if same_text(sub, "-V") || same_text(sub, "--version") || same_text(sub, "version") {
        return Ok(Command::Version);
    }
    if same_text(sub, "checks") {
        return match find_asked(texts) {
            Asks::Work => Ok(Command::Checks),
            Asks::Help => Ok(Command::Help),
            Asks::Version => Ok(Command::Version),
        };
    }
    if same_text(sub, "explain") {
        match find_asked(texts) {
            Asks::Work => {},
            Asks::Help => {
                return Ok(Command::Help);
            },
            Asks::Version => {
                return Ok(Command::Version);
            },
        }
        if texts.len() < 2 {
            return Err(
                "explain needs a check ID or name, e.g. `namefence explain NF006`".to_owned(),
            );
        }
        assert(all[1] == texts@[1]@);
        return Ok(Command::Explain { key: texts[1].clone() });
    }
    let check: bool = same_text(sub, "check");
    let fix: bool = same_text(sub, "fix");
    if !check && !fix && !same_text(sub, "stdin") {
        return Err(joined_text("unknown command `", sub, "` (see --help)"));
    }
    let st: State = match take_arguments(args, texts) {
        Ok(st) => st,
        Err(e) => {
            return Err(e);
        },
    };
    let ghost reading = st@;
    match st.asks {
        Asks::Work => {},
        Asks::Help => {
            return Ok(Command::Help);
        },
        Asks::Version => {
            return Ok(Command::Version);
        },
    }
    if !check && !fix {
        return Ok(Command::Stdin { opts: st.opts, null: st.null });
    }
    let path: Vec<u8> = match st.path {
        Some(p) => p,
        None => {
            let mut dot: Vec<u8> = Vec::new();
            dot.push(0x2E);
            dot
        },
    };
    assert(path@ == path_or_dot(reading.path));
    if check {
        Ok(Command::Check { path, opts: st.opts })
    } else {
        Ok(Command::Fix { path, opts: st.opts, apply: st.apply })
    }
}

/// Reads the arguments (without the program's name) as a command.
pub fn parse(args: &[Vec<u8>]) -> (r: Result<Command, String>)
    ensures
        ({
            let raws = raws_of(args@);
            let m = parsed(raws, raws.map_values(|a: Seq<u8>| as_text(a)));
            &&& r is Ok == m is Ok
            &&& r is Ok ==> r->Ok_0@ == m->Ok_0
            &&& r is Err ==> r->Err_0@ == m->Err_0
        }),
{
    let ghost raws = raws_of(args@);
    let mut texts: Vec<String> = Vec::new();
    let mut i: usize = 0;
    while i < args.len()
        invariant
            i <= args@.len(),
            texts@.len() == i,
            raws == raws_of(args@),
            forall|j: int| 0 <= j < i ==> (#[trigger] texts@[j])@ == as_text(raws[j]),
        decreases args@.len() - i,
    {
        assert(raws[i as int] == args@[i as int]@);
        texts.push(decode_lossy(&args[i]));
        i = i + 1;
    }
    assert(texts_of(texts@) == raws.map_values(|a: Seq<u8>| as_text(a)));
    parse_decoded(args, &texts)
}

// ---------------------------------------------------------------------------
// Standard input
// ---------------------------------------------------------------------------
/// The first `sep` in `bytes` from `from` on, or its end.
pub open spec fn next_separator(bytes: Seq<u8>, sep: u8, from: int) -> int
    decreases bytes.len() - from,
{
    if from >= bytes.len() || bytes[from] == sep {
        from
    } else {
        next_separator(bytes, sep, from + 1)
    }
}

pub proof fn lemma_next_separator(bytes: Seq<u8>, sep: u8, from: int)
    requires
        0 <= from <= bytes.len(),
    ensures
        from <= next_separator(bytes, sep, from) <= bytes.len(),
    decreases bytes.len() - from,
{
    if from < bytes.len() && bytes[from] != sep {
        lemma_next_separator(bytes, sep, from + 1);
    }
}

/// `line` without a carriage return at its end, unless lines end in NUL.
pub open spec fn without_return(line: Seq<u8>, null: bool) -> Seq<u8> {
    if !null && line.len() > 0 && line.last() == 0x0D {
        line.drop_last()
    } else {
        line
    }
}

/// The paths in `bytes` from `from` on: the lines that are not empty, which end in
/// NUL or in a newline with or without a carriage return.
pub open spec fn lines_from(bytes: Seq<u8>, null: bool, from: int) -> Seq<Seq<u8>>
    decreases bytes.len() - from,
    when 0 <= from <= bytes.len()
{
    let sep = if null {
        0u8
    } else {
        0x0Au8
    };
    proof {
        lemma_next_separator(bytes, sep, from);
    }
    let end = next_separator(bytes, sep, from);
    let line = without_return(bytes.subrange(from, end), null);
    let here = if line.len() > 0 {
        seq![line]
    } else {
        seq![]
    };
    if end >= bytes.len() {
        here
    } else {
        here + lines_from(bytes, null, end + 1)
    }
}

/// Splits standard input into paths.
pub fn split_stdin(bytes: &[u8], null: bool) -> (r: Vec<Vec<u8>>)
    ensures
        raws_of(r@) == lines_from(bytes@, null, 0),
{
    let sep: u8 = if null {
        0
    } else {
        0x0A
    };
    let n: usize = bytes.len();
    let ghost whole = lines_from(bytes@, null, 0);
    let ghost mut done: Seq<Seq<u8>> = seq![];
    let mut out: Vec<Vec<u8>> = Vec::new();
    let mut from: usize = 0;
    assert(raws_of(out@) == done);
    assert(done + lines_from(bytes@, null, 0) == whole);
    loop
        invariant
            from <= n == bytes@.len(),
            sep == if null {
                0u8
            } else {
                0x0Au8
            },
            raws_of(out@) == done,
            whole == lines_from(bytes@, null, 0),
            whole == done + lines_from(bytes@, null, from as int),
        decreases n - from,
    {
        let ghost done0 = done;
        let mut end: usize = from;
        while end < n && bytes[end] != sep
            invariant
                from <= end <= n == bytes@.len(),
                next_separator(bytes@, sep, from as int) == next_separator(
                    bytes@,
                    sep,
                    end as int,
                ),
            decreases n - end,
        {
            end = end + 1;
        }
        assert(end == next_separator(bytes@, sep, from as int));
        let ghost raw = bytes@.subrange(from as int, end as int);
        assert(end > from ==> raw.last() == bytes@[end - 1]);
        let stop: usize = if !null && end > from && bytes[end - 1] == 0x0D {
            end - 1
        } else {
            end
        };
        assert(bytes@.subrange(from as int, stop as int) == without_return(raw, null));
        let line: Vec<u8> = copy_range(bytes, from, stop);
        let ghost rest = lines_from(bytes@, null, end + 1);
        let ghost none = Seq::<Seq<u8>>::empty();
        if line.len() > 0 {
            let ghost text = line@;
            let ghost before = out@;
            out.push(line);
            proof {
                assert(raws_of(out@) == raws_of(before).push(text));
                done = done0.push(text);
                assert(end < n ==> lines_from(bytes@, null, from as int) == seq![text] + rest);
                assert(end == n ==> lines_from(bytes@, null, from as int) == seq![text]);
                assert(done0 + (seq![text] + rest) == done + rest);
                assert(done0 + seq![text] == done);
            }
        } else {
            proof {
                assert(end < n ==> lines_from(bytes@, null, from as int) == none + rest);
                assert(end == n ==> lines_from(bytes@, null, from as int) == none);
                assert(none + rest == rest);
                assert(done0 + none == done);
            }
        }
        if end == n {
            assert(whole == done);
            return out;
        }
        from = end + 1;
    }
}

// ---------------------------------------------------------------------------
// Replies
// ---------------------------------------------------------------------------
/// What a command prints to standard output and standard error, and its exit
/// code.
pub struct Reply {
    pub out: String,
    pub err: String,
    pub code: i32,
}

/// `s` filled up with spaces to `width` characters.
pub open spec fn padded(s: Seq<char>, width: nat) -> Seq<char>
    decreases width - s.len(),
{
    if s.len() >= width {
        s
    } else {
        padded(s.push(' '), width)
    }
}

fn pad(s: &str, width: usize) -> (r: String)
    ensures
        r@ == padded(s@, width as nat),
{
    let mut out: String = s.to_owned();
    let mut n: usize = s.unicode_len();
    while n < width
        invariant
            n == out@.len(),
            padded(s@, width as nat) == padded(out@, width as nat),
        decreases width - n,
    {
        out.push(' ');
        n = n + 1;
    }
    out
}

/// The names of targets.
pub open spec fn target_labels(targets: Seq<Target>) -> Seq<Seq<char>> {
    targets.map_values(|t: Target| t.label())
}

fn label_targets(targets: &[Target]) -> (r: String)
    ensures
        r@ == joined(target_labels(targets@), ", "@),
{
    let mut labels: Vec<&'static str> = Vec::new();
    let mut i: usize = 0;
    while i < targets.len()
        invariant
            i <= targets@.len(),
            labels@.len() == i,
            forall|j: int| 0 <= j < i ==> (#[trigger] labels@[j])@ == targets@[j].label(),
        decreases targets@.len() - i,
    {
        labels.push(targets[i].as_str());
        i = i + 1;
    }
    assert(slices_of(labels@) == target_labels(targets@));
    join_slices(&labels, ", ")
}

/// An entry in the listing of the catalog.
pub open spec fn check_entry(c: Row) -> Seq<char> {
    c.id + " "@ + padded(c.severity.label(), 7) + " "@ + padded(c.name, 25) + " ["@ + joined(
        target_labels(c.targets),
        ", "@,
    ) + "]\n      "@ + c.summary + "\n"@
}

/// The listing of the first `k` entries of the catalog.
pub open spec fn check_entries(k: int) -> Seq<char>
    decreases k,
{
    if k <= 0 {
        seq![]
    } else {
        check_entries(k - 1) + check_entry(row(k - 1))
    }
}

/// The full story of an entry.
pub open spec fn explanation(c: Row) -> Seq<char> {
    c.id + " ("@ + c.name + ") — severity "@ + c.severity.label() + " — breaks on: "@ + joined(
        target_labels(c.targets),
        ", "@,
    ) + "\n\n"@ + c.explain + "\n"@
}

/// A reply to standard output.
fn said(out: String) -> (r: Reply)
    ensures
        says(r, out@),
{
    Reply { out, err: String::new(), code: 0 }
}

/// The complaint about a usage error.
pub fn usage_error(message: &str) -> (r: Reply)
    ensures
        complains(r, message@),
{
    Reply { out: String::new(), err: joined_text("namefence: ", message, "\n"), code: 2 }
}

/// The help.
pub fn help_reply() -> (r: Reply)
    ensures
        says(r, USAGE@),
{
    said(USAGE.to_owned())
}

/// The version.
pub fn version_reply() -> (r: Reply)
    ensures
        says(r, "namefence "@ + VERSION@ + "\n"@),
{
    said(joined_text("namefence ", VERSION, "\n"))
}

/// The listing of the catalog.
pub fn checks_reply() -> (r: Reply)
    ensures
        says(r, check_entries(CHECK_COUNT as int)),
{
    let all: &'static [Check] = catalog();
    let mut out = String::new();
    let mut i: usize = 0;
    assert(out@ == check_entries(0));
    while i < all.len()
        invariant
            i <= all@.len() == CHECK_COUNT,
            forall|k: int| 0 <= k < CHECK_COUNT ==> (#[trigger] all@[k])@ == row(k),
            out@ == check_entries(i as int),
        decreases all@.len() - i,
    {
        let c: &Check = &all[i];
        assert(c@ == row(i as int));
        let mut line: String = c.id.to_owned();
        line.append(" ");
        line.append(&pad(c.severity.as_str(), 7));
        line.append(" ");
        line.append(&pad(c.name, 25));
        line.append(" [");
        line.append(&label_targets(c.targets));
        line.append("]\n      ");
        line.append(c.summary);
        line.append("\n");
        assert(line@ == check_entry(c@));
        out.append(&line);
        i = i + 1;
    }
    said(out)
}

/// Is `r` a complaint?
pub open spec fn complains(r: Reply, message: Seq<char>) -> bool {
    &&& r.out@ == Seq::<char>::empty()
    &&& r.err@ == "namefence: "@ + message + "\n"@
    &&& r.code == 2
}

/// Is `r` the text `out` on standard output?
pub open spec fn says(r: Reply, out: Seq<char>) -> bool {
    &&& r.out@ == out
    &&& r.err@ == Seq::<char>::empty()
    &&& r.code == 0
}

/// Does `r` tell the story of the check that `key` names?
pub open spec fn explains(r: Reply, key: Seq<char>) -> bool {
    match named_check(key) {
        Some(c) => says(r, explanation(c)),
        None => complains(r, "unknown check `"@ + key + "` (see `namefence checks`)"@),
    }
}

/// The full story of the check that `key` names.
pub fn explain_reply(key: &str) -> (r: Reply)
    ensures
        explains(r, key@),
{
    match lookup(key) {
        Some(c) => {
            let mut out: String = c.id.to_owned();
            out.append(" (");
            out.append(c.name);
            out.append(") — severity ");
            out.append(c.severity.as_str());
            out.append(" — breaks on: ");
            out.append(&label_targets(c.targets));
            out.append("\n\n");
            out.append(c.explain);
            out.append("\n");
            said(out)
        },
        None => usage_error(&joined_text("unknown check `", key, "` (see `namefence checks`)")),
    }
}

/// The report of a scan of `root`, which fails by the given policy.
pub fn report_reply(root: &str, result: &ScanResult, format: Format, fail_on: FailOn) -> (r: Reply)
    ensures
        r.out@ == match format {
            Format::Text => text_report(reports_of(result.findings@), result.stats),
            Format::Json => json_report(root@, reports_of(result.findings@), result.stats),
        },
        r.err@ == Seq::<char>::empty(),
        r.code == if is_failure(reports_of(result.findings@), fail_on) {
            1i32
        } else {
            0i32
        },
{
    let out: String = match format {
        Format::Text => render_text(result),
        Format::Json => render_json(root, result),
    };
    let code: i32 = if should_fail(result, fail_on) {
        1
    } else {
        0
    };
    Reply { out, err: String::new(), code }
}

/// The plan for `root`, or the result of carrying it out. A plan that is neither
/// empty nor carried out fails, so that it can gate a build as a report does.
pub fn plan_reply(root: &str, renames: &[Rename], format: Format, applied: bool) -> (r: Reply)
    ensures
        r.out@ == match format {
            Format::Text => text_plan(moves_of(renames@), applied),
            Format::Json => json_plan(root@, moves_of(renames@), applied),
        },
        r.err@ == Seq::<char>::empty(),
        r.code == if !applied && renames@.len() > 0 {
            1i32
        } else {
            0i32
        },
{
    let out: String = match format {
        Format::Text => render_plan_text(renames, applied),
        Format::Json => render_plan_json(root, renames, applied),
    };
    let code: i32 = if !applied && renames.len() > 0 {
        1
    } else {
        0
    };
    Reply { out, err: String::new(), code }
}

} // verus!
