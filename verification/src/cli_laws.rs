//! How arguments make up a command.

use vstd::prelude::*;

use crate::cli::{
    asked, asked_from, check_list, default_options, no_arguments, number_of, parsed, read_argument,
    read_arguments, takes_value, target_list, with_argument, with_value, Asks, Format, Options,
    Reading, Task,
};
use crate::numerals::decimal;
use crate::report::FailOn;
use crate::split_laws::law_numerals_are_read;

verus! {

// ---------------------------------------------------------------------------
// Options with values
// ---------------------------------------------------------------------------
proof fn lemma_option_names()
    ensures
        "--format"@.len() == 8,
        "--fail-on"@.len() == 9,
        "--only"@.len() == 6,
        "--skip"@.len() == 6,
        "--targets"@.len() == 9,
        "--max-path"@.len() == 10,
        "--max-files"@.len() == 11,
        "--only"@[2] != "--skip"@[2],
        "--fail-on"@[2] != "--targets"@[2],
        "text"@[0] != "json"@[0],
{
    reveal_strlit("--format");
    reveal_strlit("--fail-on");
    reveal_strlit("--only");
    reveal_strlit("--skip");
    reveal_strlit("--targets");
    reveal_strlit("--max-path");
    reveal_strlit("--max-files");
    reveal_strlit("text");
    reveal_strlit("json");
}

/// An option sets what it is named after and keeps all else.
pub proof fn law_options_keep_the_rest(o: Options, arg: Seq<char>, v: Seq<char>)
    requires
        takes_value(arg),
        with_value(o, arg, v) is Ok,
    ensures
        ({
            let p = with_value(o, arg, v)->Ok_0;
            &&& arg != "--format"@ ==> p.format == o.format
            &&& arg != "--fail-on"@ ==> p.fail_on == o.fail_on
            &&& arg != "--only"@ ==> p.only == o.only
            &&& arg != "--skip"@ ==> p.skip == o.skip
            &&& arg != "--targets"@ ==> p.targets == o.targets
            &&& arg != "--max-path"@ ==> p.max_path == o.max_path
            &&& arg != "--max-files"@ ==> p.max_files == o.max_files
        }),
{
}

/// What an option is set to does not depend on the options before it, nor does
/// whether its value is refused, and with what complaint.
pub proof fn law_options_are_independent(o: Options, p: Options, arg: Seq<char>, v: Seq<char>)
    requires
        takes_value(arg),
    ensures
        with_value(o, arg, v) is Ok <==> with_value(p, arg, v) is Ok,
        with_value(o, arg, v) is Err ==> with_value(o, arg, v) == with_value(p, arg, v),
        with_value(o, arg, v) is Ok ==> {
            let q = with_value(o, arg, v)->Ok_0;
            let r = with_value(p, arg, v)->Ok_0;
            &&& arg == "--format"@ ==> q.format == r.format
            &&& arg == "--fail-on"@ ==> q.fail_on == r.fail_on
            &&& arg == "--only"@ ==> q.only == r.only
            &&& arg == "--skip"@ ==> q.skip == r.skip
            &&& arg == "--targets"@ ==> q.targets == r.targets
            &&& arg == "--max-path"@ ==> q.max_path == r.max_path
            &&& arg == "--max-files"@ ==> q.max_files == r.max_files
        },
{
    lemma_option_names();
}

/// Two different options may come in either order.
pub proof fn law_options_commute(
    o: Options,
    a: Seq<char>,
    v: Seq<char>,
    b: Seq<char>,
    w: Seq<char>,
)
    requires
        takes_value(a),
        takes_value(b),
        a != b,
        with_value(o, a, v) is Ok,
        with_value(o, b, w) is Ok,
    ensures
        with_value(with_value(o, a, v)->Ok_0, b, w) == with_value(
            with_value(o, b, w)->Ok_0,
            a,
            v,
        ),
{
    lemma_option_names();
}

/// Of one option given twice the last counts.
pub proof fn law_last_option_counts(o: Options, arg: Seq<char>, v: Seq<char>, w: Seq<char>)
    requires
        takes_value(arg),
        with_value(o, arg, v) is Ok,
    ensures
        with_value(with_value(o, arg, v)->Ok_0, arg, w) == with_value(o, arg, w),
{
    lemma_option_names();
}

/// The values that options take: a format and a policy by name, a number by its
/// numeral, and lists of checks and targets.
pub proof fn law_options_are_set(o: Options, f: FailOn, n: nat, list: Seq<char>)
    requires
        n <= usize::MAX,
    ensures
        with_value(o, "--format"@, "text"@) == Ok::<Options, Seq<char>>(
            Options { format: Format::Text, ..o },
        ),
        with_value(o, "--format"@, "json"@) == Ok::<Options, Seq<char>>(
            Options { format: Format::Json, ..o },
        ),
        with_value(o, "--fail-on"@, f.label()) == Ok::<Options, Seq<char>>(
            Options { fail_on: f, ..o },
        ),
        with_value(o, "--max-path"@, decimal(n)) == Ok::<Options, Seq<char>>(
            Options { max_path: n as int, ..o },
        ),
        with_value(o, "--max-files"@, decimal(n)) == Ok::<Options, Seq<char>>(
            Options { max_files: n as int, ..o },
        ),
        check_list(list) is Ok ==> with_value(o, "--only"@, list) == Ok::<Options, Seq<char>>(
            Options { only: check_list(list)->Ok_0, ..o },
        ),
        check_list(list) is Ok ==> with_value(o, "--skip"@, list) == Ok::<Options, Seq<char>>(
            Options { skip: check_list(list)->Ok_0, ..o },
        ),
        target_list(list) is Ok ==> with_value(o, "--targets"@, list) == Ok::<Options, Seq<char>>(
            Options { targets: target_list(list)->Ok_0, ..o },
        ),
{
    lemma_option_names();
    law_numerals_are_read(n);
    reveal_strlit("never");
    reveal_strlit("info");
    reveal_strlit("warning");
    reveal_strlit("error");
    assert("never"@[0] == 'n' && "info"@[0] == 'i' && "warning"@[0] == 'w' && "error"@[0] == 'e');
}

/// A value that is none of those is refused.
pub proof fn law_other_values_are_refused(o: Options, v: Seq<char>)
    ensures
        v != "text"@ && v != "json"@ ==> with_value(o, "--format"@, v) is Err,
        (forall|f: FailOn| v != #[trigger] f.label()) ==> with_value(o, "--fail-on"@, v) is Err,
        number_of(v) is None ==> with_value(o, "--max-path"@, v) is Err && with_value(
            o,
            "--max-files"@,
            v,
        ) is Err,
        check_list(v) is Err ==> with_value(o, "--only"@, v) is Err && with_value(
            o,
            "--skip"@,
            v,
        ) is Err,
        target_list(v) is Err ==> with_value(o, "--targets"@, v) is Err,
{
    lemma_option_names();
    if forall|f: FailOn| v != #[trigger] f.label() {
        assert(v != FailOn::Never.label() && v != FailOn::Info.label() && v
            != FailOn::Warning.label() && v != FailOn::Error.label());
    }
}

// ---------------------------------------------------------------------------
// Arguments behind each other
// ---------------------------------------------------------------------------
proof fn lemma_read_step(
    st: Reading,
    sub: Seq<char>,
    raws: Seq<Seq<u8>>,
    texts: Seq<Seq<char>>,
    more: Seq<Seq<u8>>,
    others: Seq<Seq<char>>,
    i: int,
)
    requires
        0 <= i < texts.len() == raws.len(),
        read_argument(st, sub, raws, texts, i) is Ok,
    ensures
        read_argument(st, sub, raws + more, texts + others, i) == read_argument(
            st,
            sub,
            raws,
            texts,
            i,
        ),
        (read_argument(st, sub, raws, texts, i)->Ok_0).1 <= texts.len(),
        (read_argument(st, sub, raws, texts, i)->Ok_0).1 > i,
{
    let all = texts + others;
    assert(all[i] == texts[i]);
    assert((raws + more)[i] == raws[i]);
    if takes_value(texts[i]) {
        assert(all[i + 1] == texts[i + 1]);
    }
}

/// Arguments are read from left to right: where a command reads and asks for work,
/// more arguments are read on top of what it says.
pub proof fn law_arguments_are_read_in_order(
    st: Reading,
    sub: Seq<char>,
    raws: Seq<Seq<u8>>,
    texts: Seq<Seq<char>>,
    more: Seq<Seq<u8>>,
    others: Seq<Seq<char>>,
    i: int,
)
    requires
        0 <= i <= texts.len() == raws.len(),
        st.asks == Asks::Work,
        read_arguments(st, sub, raws, texts, i) is Ok,
        (read_arguments(st, sub, raws, texts, i)->Ok_0).asks == Asks::Work,
    ensures
        read_arguments(st, sub, raws + more, texts + others, i) == read_arguments(
            read_arguments(st, sub, raws, texts, i)->Ok_0,
            sub,
            raws + more,
            texts + others,
            texts.len() as int,
        ),
    decreases texts.len() - i,
{
    if i < texts.len() {
        lemma_read_step(st, sub, raws, texts, more, others, i);
        let (next, j) = read_argument(st, sub, raws, texts, i)->Ok_0;
        if next.asks == Asks::Work {
            law_arguments_are_read_in_order(next, sub, raws, texts, more, others, j);
        }
    }
}

/// The first argument that is refused refuses the command, whatever follows it.
pub proof fn law_refused_arguments_refuse(
    st: Reading,
    sub: Seq<char>,
    raws: Seq<Seq<u8>>,
    texts: Seq<Seq<char>>,
    i: int,
)
    requires
        0 <= i < texts.len(),
        read_argument(st, sub, raws, texts, i) is Err,
    ensures
        read_arguments(st, sub, raws, texts, i) == Err::<Reading, Seq<char>>(
            read_argument(st, sub, raws, texts, i)->Err_0,
        ),
{
}

/// An argument that takes no value keeps the options and sets one thing: that the
/// plan is to be carried out, that paths end in NUL, what is asked for, or the path.
pub proof fn law_arguments_set_one_thing(
    st: Reading,
    sub: Seq<char>,
    arg: Seq<char>,
    raw: Seq<u8>,
)
    requires
        with_argument(st, sub, arg, raw) is Ok,
    ensures
        ({
            let next = with_argument(st, sub, arg, raw)->Ok_0;
            &&& next.opts == st.opts
            &&& next.apply == (st.apply || arg == "--apply"@ && sub == "fix"@)
            &&& next.null == (st.null || (arg == "-0"@ || arg == "--null"@) && sub == "stdin"@)
            &&& asked(arg) != Asks::Work ==> next.asks == asked(arg)
            &&& asked(arg) == Asks::Work ==> next.asks == st.asks
            &&& arg.len() > 0 && arg[0] == '-' ==> next.path == st.path
            &&& arg.len() == 0 || arg[0] != '-' ==> st.path is None && next.path == Some(raw)
        }),
{
    reveal_strlit("--apply");
    reveal_strlit("-0");
    reveal_strlit("--null");
    reveal_strlit("-h");
    reveal_strlit("--help");
    reveal_strlit("-V");
    reveal_strlit("--version");
    assert("--apply"@.len() == 7 && "-0"@.len() == 2 && "--null"@.len() == 6 && "-h"@.len() == 2
        && "--help"@.len() == 6 && "-V"@.len() == 2 && "--version"@.len() == 9);
    assert("-0"@[1] == '0' && "-h"@[1] == 'h' && "-V"@[1] == 'V');
    assert("--null"@[2] == 'n' && "--help"@[2] == 'h');
    assert("--apply"@[0] == '-' && "-0"@[0] == '-' && "--null"@[0] == '-' && "-h"@[0] == '-'
        && "--help"@[0] == '-' && "-V"@[0] == '-' && "--version"@[0] == '-');
}

/// An argument that begins with a dash and is no option of the command is refused, as
/// is a path where the command takes none or has one.
pub proof fn law_other_arguments_are_refused(
    st: Reading,
    sub: Seq<char>,
    arg: Seq<char>,
    raw: Seq<u8>,
)
    requires
        asked(arg) == Asks::Work,
        !(arg == "--apply"@ && sub == "fix"@),
        !((arg == "-0"@ || arg == "--null"@) && sub == "stdin"@),
        arg.len() > 0 && arg[0] == '-' || sub == "stdin"@ || st.path is Some,
    ensures
        with_argument(st, sub, arg, raw) is Err,
{
}

/// What is asked for is the help or the version if an argument asks for it, wherever
/// it stands; the first that does decides.
pub proof fn law_help_is_found(texts: Seq<Seq<char>>, i: int, k: int)
    requires
        0 <= i <= k < texts.len(),
        asked(texts[k]) != Asks::Work,
        forall|j: int| i <= j < k ==> asked(#[trigger] texts[j]) == Asks::Work,
    ensures
        asked_from(texts, i) == asked(texts[k]),
    decreases k - i,
{
    if i < k {
        assert(asked(texts[i]) == Asks::Work);
        law_help_is_found(texts, i + 1, k);
    }
}

/// Where no argument asks for the help or the version, work is asked for.
pub proof fn law_work_is_asked(texts: Seq<Seq<char>>, i: int)
    requires
        0 <= i <= texts.len(),
        forall|j: int| i <= j < texts.len() ==> asked(#[trigger] texts[j]) == Asks::Work,
    ensures
        asked_from(texts, i) == Asks::Work,
    decreases texts.len() - i,
{
    if i < texts.len() {
        assert(asked(texts[i]) == Asks::Work);
        law_work_is_asked(texts, i + 1);
    }
}

proof fn lemma_command_names()
    ensures
        "-h"@.len() == 2,
        "--help"@.len() == 6,
        "help"@.len() == 4,
        "-V"@.len() == 2,
        "--version"@.len() == 9,
        "version"@.len() == 7,
        "checks"@.len() == 6,
        "explain"@.len() == 7,
        "check"@.len() == 5,
        "fix"@.len() == 3,
        "stdin"@.len() == 5,
        "checks"@[0] != "--help"@[0],
        "check"@[0] != "stdin"@[0],
        "explain"@[0] != "version"@[0],
{
    reveal_strlit("-h");
    reveal_strlit("--help");
    reveal_strlit("help");
    reveal_strlit("-V");
    reveal_strlit("--version");
    reveal_strlit("version");
    reveal_strlit("checks");
    reveal_strlit("explain");
    reveal_strlit("check");
    reveal_strlit("fix");
    reveal_strlit("stdin");
}

/// A command does what its arguments say: `check` and `fix` on the path that is given
/// or the current directory, `stdin` on what it reads.
pub proof fn law_commands_do_what_is_read(raws: Seq<Seq<u8>>, texts: Seq<Seq<char>>)
    requires
        texts.len() > 0,
        read_arguments(no_arguments(), texts[0], raws, texts, 1) is Ok,
        (read_arguments(no_arguments(), texts[0], raws, texts, 1)->Ok_0).asks == Asks::Work,
    ensures
        ({
            let st = read_arguments(no_arguments(), texts[0], raws, texts, 1)->Ok_0;
            let path = match st.path {
                Some(p) => p,
                None => seq![0x2Eu8],
            };
            &&& texts[0] == "check"@ ==> parsed(raws, texts) == Ok::<Task, Seq<char>>(
                Task::Check { path, opts: st.opts },
            )
            &&& texts[0] == "fix"@ ==> parsed(raws, texts) == Ok::<Task, Seq<char>>(
                Task::Fix { path, opts: st.opts, apply: st.apply },
            )
            &&& texts[0] == "stdin"@ ==> parsed(raws, texts) == Ok::<Task, Seq<char>>(
                Task::Stdin { opts: st.opts, null: st.null },
            )
        }),
{
    lemma_command_names();
}

/// A command whose arguments are refused is refused with that complaint, and one of
/// no known name is refused.
pub proof fn law_commands_are_refused(raws: Seq<Seq<u8>>, texts: Seq<Seq<char>>)
    requires
        texts.len() > 0,
    ensures
        (texts[0] == "check"@ || texts[0] == "fix"@ || texts[0] == "stdin"@) && read_arguments(
            no_arguments(),
            texts[0],
            raws,
            texts,
            1,
        ) is Err ==> parsed(raws, texts) == Err::<Task, Seq<char>>(
            read_arguments(no_arguments(), texts[0], raws, texts, 1)->Err_0,
        ),
        texts[0] != "check"@ && texts[0] != "fix"@ && texts[0] != "stdin"@ && texts[0] != "checks"@
            && texts[0] != "explain"@ && texts[0] != "help"@ && texts[0] != "-h"@ && texts[0]
            != "--help"@ && texts[0] != "version"@ && texts[0] != "-V"@ && texts[0] != "--version"@
            ==> parsed(raws, texts) is Err,
{
    lemma_command_names();
}

/// Behind any command an argument that asks for the help or the version is obeyed, if
/// all before it reads.
pub proof fn law_help_behind_commands(
    raws: Seq<Seq<u8>>,
    texts: Seq<Seq<char>>,
    st: Reading,
    k: int,
)
    requires
        0 < k < texts.len() == raws.len(),
        texts[0] == "check"@ || texts[0] == "fix"@ || texts[0] == "stdin"@,
        read_arguments(no_arguments(), texts[0], raws.take(k), texts.take(k), 1) == Ok::<
            Reading,
            Seq<char>,
        >(st),
        st.asks == Asks::Work,
        asked(texts[k]) != Asks::Work,
    ensures
        parsed(raws, texts) == Ok::<Task, Seq<char>>(
            if asked(texts[k]) == Asks::Help {
                Task::Help
            } else {
                Task::Version
            },
        ),
{
    lemma_command_names();
    let a = raws.take(k);
    let b = texts.take(k);
    assert(a + raws.skip(k) == raws);
    assert(b + texts.skip(k) == texts);
    law_arguments_are_read_in_order(
        no_arguments(),
        texts[0],
        a,
        b,
        raws.skip(k),
        texts.skip(k),
        1,
    );
    lemma_asking_takes_no_value(texts[k]);
    reveal_strlit("--apply");
    reveal_strlit("-0");
    reveal_strlit("--null");
    assert("--apply"@.len() == 7 && "-0"@.len() == 2 && "--null"@.len() == 6);
    reveal_strlit("-h");
    reveal_strlit("--help");
    reveal_strlit("-V");
    reveal_strlit("--version");
    assert("-0"@[1] == '0' && "-h"@[1] == 'h' && "-V"@[1] == 'V');
    assert("--null"@[2] == 'n' && "--help"@[2] == 'h');
}

proof fn lemma_asking_takes_no_value(arg: Seq<char>)
    requires
        asked(arg) != Asks::Work,
    ensures
        !takes_value(arg),
{
    lemma_option_names();
    reveal_strlit("-h");
    reveal_strlit("--help");
    reveal_strlit("-V");
    reveal_strlit("--version");
    reveal_strlit("--only");
    reveal_strlit("--skip");
    reveal_strlit("--fail-on");
    reveal_strlit("--targets");
    assert("--help"@[2] == 'h' && "--only"@[2] == 'o' && "--skip"@[2] == 's');
    assert("--version"@[2] == 'v' && "--fail-on"@[2] == 'f' && "--targets"@[2] == 't');
}

/// Without arguments a command has the default options: text, failing at warnings,
/// every check on every target, and the default budgets.
pub proof fn law_defaults()
    ensures
        default_options().format == Format::Text,
        default_options().fail_on == FailOn::Warning,
        default_options().only.len() == 0,
        default_options().skip.len() == 0,
        forall|t: crate::rules::Target| #[trigger] default_options().targets.contains(t),
        default_options().max_path == 240,
        default_options().max_files == 200000,
{
    let all = default_options().targets;
    assert forall|t: crate::rules::Target| #[trigger] all.contains(t) by {
        match t {
            crate::rules::Target::Windows => {
                assert(all[0] == t);
            },
            crate::rules::Target::Macos => {
                assert(all[1] == t);
            },
            crate::rules::Target::Linux => {
                assert(all[2] == t);
            },
            crate::rules::Target::Cloud => {
                assert(all[3] == t);
            },
        }
    }
}

// ---------------------------------------------------------------------------
// Complaints
// ---------------------------------------------------------------------------
/// A complaint about a value repeats it.
pub proof fn law_complaints_about_values(o: Options, v: Seq<char>)
    ensures
        v != "text"@ && v != "json"@ ==> with_value(o, "--format"@, v) == Err::<
            Options,
            Seq<char>,
        >("unknown format `"@ + v + "` (text or json)"@),
        (forall|f: FailOn| v != #[trigger] f.label()) ==> with_value(o, "--fail-on"@, v) == Err::<
            Options,
            Seq<char>,
        >("unknown --fail-on `"@ + v + "` (error, warning, info, never)"@),
        number_of(v) is None ==> with_value(o, "--max-path"@, v) == Err::<Options, Seq<char>>(
            "--max-path"@ + " needs a number, got `"@ + v + "`"@,
        ),
        number_of(v) is None ==> with_value(o, "--max-files"@, v) == Err::<Options, Seq<char>>(
            "--max-files"@ + " needs a number, got `"@ + v + "`"@,
        ),
        check_list(v) is Err ==> with_value(o, "--only"@, v) == Err::<Options, Seq<char>>(
            check_list(v)->Err_0,
        ),
        check_list(v) is Err ==> with_value(o, "--skip"@, v) == Err::<Options, Seq<char>>(
            check_list(v)->Err_0,
        ),
        target_list(v) is Err ==> with_value(o, "--targets"@, v) == Err::<Options, Seq<char>>(
            target_list(v)->Err_0,
        ),
{
    lemma_option_names();
    if forall|f: FailOn| v != #[trigger] f.label() {
        assert(v != FailOn::Never.label() && v != FailOn::Info.label() && v
            != FailOn::Warning.label() && v != FailOn::Error.label());
    }
}

/// A complaint about an argument repeats it and says what is wrong with it.
pub proof fn law_complaints_about_arguments(
    st: Reading,
    sub: Seq<char>,
    arg: Seq<char>,
    raw: Seq<u8>,
)
    requires
        asked(arg) == Asks::Work,
        !(arg == "--apply"@ && sub == "fix"@),
        !((arg == "-0"@ || arg == "--null"@) && sub == "stdin"@),
    ensures
        arg.len() > 0 && arg[0] == '-' ==> with_argument(st, sub, arg, raw) == Err::<
            Reading,
            Seq<char>,
        >("unknown option `"@ + arg + "` for `"@ + sub + "` (see --help)"@),
        (arg.len() == 0 || arg[0] != '-') && sub == "stdin"@ ==> with_argument(st, sub, arg, raw)
            == Err::<Reading, Seq<char>>(
            "stdin reads paths from standard input, not arguments"@,
        ),
        (arg.len() == 0 || arg[0] != '-') && sub != "stdin"@ && st.path is Some ==> with_argument(
            st,
            sub,
            arg,
            raw,
        ) == Err::<Reading, Seq<char>>("unexpected extra argument `"@ + arg + "`"@),
{
}

/// An option without its value is complained about.
pub proof fn law_values_are_needed(
    st: Reading,
    sub: Seq<char>,
    raws: Seq<Seq<u8>>,
    texts: Seq<Seq<char>>,
)
    requires
        texts.len() > 0,
        takes_value(texts.last()),
    ensures
        read_argument(st, sub, raws, texts, texts.len() - 1) == Err::<(Reading, int), Seq<char>>(
            texts.last() + " needs a value"@,
        ),
{
}

/// The options that take a value.
pub proof fn law_options_with_values(arg: Seq<char>)
    ensures
        takes_value(arg) <==> arg == "--format"@ || arg == "--fail-on"@ || arg == "--only"@ || arg
            == "--skip"@ || arg == "--targets"@ || arg == "--max-path"@ || arg == "--max-files"@,
{
}

/// What no arguments, and an unknown command, make.
pub proof fn law_first_arguments(raws: Seq<Seq<u8>>, texts: Seq<Seq<char>>)
    ensures
        texts.len() == 0 ==> parsed(raws, texts) == Ok::<Task, Seq<char>>(Task::Help),
        texts.len() > 0 && (texts[0] == "help"@ || texts[0] == "-h"@ || texts[0] == "--help"@)
            ==> parsed(raws, texts) == Ok::<Task, Seq<char>>(Task::Help),
        texts.len() > 0 && (texts[0] == "version"@ || texts[0] == "-V"@ || texts[0] == "--version"@)
            ==> parsed(raws, texts) == Ok::<Task, Seq<char>>(Task::Version),
        texts.len() > 0 && texts[0] == "checks"@ && asked_from(texts, 1) == Asks::Work ==> parsed(
            raws,
            texts,
        ) == Ok::<Task, Seq<char>>(Task::Checks),
        texts.len() > 1 && texts[0] == "explain"@ && asked_from(texts, 1) == Asks::Work ==> parsed(
            raws,
            texts,
        ) == Ok::<Task, Seq<char>>(Task::Explain { key: texts[1] }),
        texts.len() == 1 && texts[0] == "explain"@ ==> parsed(raws, texts) is Err,
        texts.len() > 0 && (texts[0] == "checks"@ || texts[0] == "explain"@) && asked_from(texts, 1)
            == Asks::Help ==> parsed(raws, texts) == Ok::<Task, Seq<char>>(Task::Help),
        texts.len() > 0 && (texts[0] == "checks"@ || texts[0] == "explain"@) && asked_from(texts, 1)
            == Asks::Version ==> parsed(raws, texts) == Ok::<Task, Seq<char>>(Task::Version),
{
    lemma_command_names();
    reveal_strlit("-h");
    reveal_strlit("-V");
    reveal_strlit("--help");
    reveal_strlit("help");
    assert("-h"@[1] != "-V"@[1]);
}

/// What asks for the help and for the version.
pub proof fn law_asking(arg: Seq<char>)
    ensures
        asked(arg) == Asks::Help <==> arg == "-h"@ || arg == "--help"@,
        asked(arg) == Asks::Version <==> arg == "-V"@ || arg == "--version"@,
{
    lemma_command_names();
    reveal_strlit("-h");
    reveal_strlit("-V");
    assert("-h"@[1] != "-V"@[1]);
}

} // verus!
