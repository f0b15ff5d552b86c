//! What is written in JSON reads back: a reader of JSON that knows nothing of the
//! rendering gives back every value of a report and of a plan, in order.

use vstd::prelude::*;

use crate::engine::{Report, Stats};
use crate::fixname::Move;
use crate::json::{
    all_blank, document, elements, first_char, hex, is_end, is_plain, is_value, lemma_assoc,
    lemma_empty_list, lemma_last_element, lemma_last_member, lemma_list, lemma_more_elements,
    lemma_more_members, lemma_number, lemma_object, lemma_plain, lemma_string, lemma_unblanked,
    lemma_words, long_escape, members, number, short_escape, string_end, value, Json,
};
use crate::numerals::{decimal, digit, lemma_decimal, numeral};
use crate::report::{
    bool_json, escaped, escaped_char, finding_json, findings_json, fix_json, joined, json_head,
    json_plan, json_report, move_json, moves_json, quoted, stats_json,
};
use crate::rules::{row, CHECK_COUNT};
use crate::VERSION;

verus! {

// ---------------------------------------------------------------------------
// Strings
// ---------------------------------------------------------------------------
/// A text in front of what was read.
spec fn prefixed(s: Seq<char>, o: Option<(Seq<char>, Seq<char>)>) -> Option<
    (Seq<char>, Seq<char>),
> {
    match o {
        Some((t, rest)) => Some((s + t, rest)),
        None => None,
    }
}

proof fn lemma_control(c: char)
    requires
        '\u{20}' > c,
    ensures
        ({
            let n = c as nat;
            &&& numeral(n, 16, 4, false) == seq!['0', '0', digit(n / 16, false), digit(
                n % 16,
                false,
            )]
            &&& long_escape('0', '0', digit(n / 16, false), digit(n % 16, false)) == Some(c)
        }),
{
    let n = c as nat;
    reveal_with_fuel(numeral, 4);
    assert(numeral(n, 16, 4, false) == seq!['0', '0', digit(n / 16, false), digit(n % 16, false)]);
    assert(n / 16 < 2 && n % 16 < 16);
    assert(hex('0') == Some(0int));
    assert(hex(digit(n / 16, false)) == Some((n / 16) as int));
    assert(hex(digit(n % 16, false)) == Some((n % 16) as int));
    assert((n / 16) * 16 + n % 16 == n);
}

/// A character in a string reads back.
proof fn lemma_escaped_char(c: char, u: Seq<char>)
    ensures
        string_end(escaped_char(c) + u) == prefixed(seq![c], string_end(u)),
{
    reveal_strlit("\\\"");
    reveal_strlit("\\\\");
    reveal_strlit("\\n");
    reveal_strlit("\\r");
    reveal_strlit("\\t");
    reveal_strlit("\\u");
    let e = escaped_char(c);
    let t = e + u;
    if '\u{20}' > c && c != '\n' && c != '\r' && c != '\t' {
        lemma_control(c);
        let n = c as nat;
        assert(e == seq!['\\', 'u', '0', '0', digit(n / 16, false), digit(n % 16, false)]);
        assert(t[0] == '\\' && t[1] == 'u' && t[2] == '0' && t[3] == '0' && t[4] == digit(
            n / 16,
            false,
        ) && t[5] == digit(n % 16, false));
        assert(short_escape('u') is None);
        assert(first_char(t) == Some((c, 6int)));
        assert(t.skip(6) == u);
    } else if c == '"' || c == '\\' || c == '\n' || c == '\r' || c == '\t' {
        assert(e.len() == 2 && t[0] == e[0] && t[1] == e[1]);
        assert(first_char(t) == Some((c, 2int)));
        assert(t.skip(2) == u);
    } else {
        assert(t[0] == c);
        assert(first_char(t) == Some((c, 1int)));
        assert(t.skip(1) == u);
    }
}

/// A text in a string reads back.
proof fn lemma_escaped(s: Seq<char>, u: Seq<char>)
    ensures
        string_end(escaped(s) + u) == prefixed(s, string_end(u)),
    decreases s.len(),
{
    if s.len() == 0 {
        assert(escaped(s) + u == u);
        assert(string_end(u) is Some ==> s + (string_end(u)->0).0 == (string_end(u)->0).0);
    } else {
        let e = escaped_char(s.last());
        let a = escaped(s.drop_last());
        assert(a + e + u == a + (e + u));
        lemma_escaped(s.drop_last(), e + u);
        lemma_escaped_char(s.last(), u);
        if string_end(u) is Some {
            let t = (string_end(u)->0).0;
            assert(s.drop_last() + (seq![s.last()] + t) == s + t);
        }
    }
}

/// An escaped text in quotes is that text.
pub proof fn law_strings_read_back(s: Seq<char>)
    ensures
        is_value("\""@ + escaped(s) + "\""@, Json::Text(s)),
{
    reveal_strlit("\"");
    assert forall|rest: Seq<char>| #[trigger]
        string_end(escaped(s) + "\""@ + rest) == Some((s, rest)) by {
        let u = "\""@ + rest;
        assert(escaped(s) + "\""@ + rest == escaped(s) + u);
        lemma_escaped(s, u);
        assert(u[0] == '"');
        assert(u.skip(1) == rest);
        assert(s + Seq::<char>::empty() == s);
    }
    lemma_string(escaped(s), s);
}

proof fn lemma_plain_string(s: Seq<char>)
    requires
        is_plain(s),
    ensures
        is_value("\""@ + s + "\""@, Json::Text(s)),
{
    assert forall|rest: Seq<char>| #[trigger]
        string_end(s + "\""@ + rest) == Some((s, rest)) by {
        lemma_plain(s, rest);
    }
    lemma_string(s, s);
}

// ---------------------------------------------------------------------------
// Numbers
// ---------------------------------------------------------------------------
proof fn lemma_number_push(s: Seq<char>, c: char, n: nat)
    requires
        '0' <= c <= '9',
    ensures
        number(s.push(c), n) == 10 * number(s, n) + (c as int - 0x30),
    decreases s.len(),
{
    if s.len() == 0 {
        reveal_with_fuel(number, 2);
        assert(s.push(c).skip(1) == Seq::<char>::empty());
        assert(s.push(c)[0] == c);
    } else {
        assert(s.push(c).skip(1) == s.skip(1).push(c));
        assert(s.push(c)[0] == s[0]);
        lemma_number_push(s.skip(1), c, 10 * n + (s[0] as nat - 0x30) as nat);
    }
}

proof fn lemma_numeral(n: nat, width: nat)
    requires
        width <= 1,
    ensures
        number(numeral(n, 10, width, false), 0) == n,
        n > 0 ==> numeral(n, 10, width, false)[0] != '0',
        numeral(n, 10, width, false).len() > 1 ==> n > 0,
    decreases n,
{
    let s = numeral(n, 10, width, false);
    if n < 10 {
        assert(s == seq![digit(n, false)]);
        reveal_with_fuel(number, 2);
        assert(s.skip(1) == Seq::<char>::empty());
    } else {
        lemma_numeral(n / 10, 0);
        let head = numeral(n / 10, 10, 0, false);
        lemma_decimal(n / 10, 0);
        lemma_number_push(head, digit(n % 10, false), 0);
        assert(s == head.push(digit(n % 10, false)));
        assert(s[0] == head[0]);
    }
}

/// A decimal numeral is its number.
pub proof fn law_numbers_read_back(n: nat)
    ensures
        is_value(decimal(n), Json::Number(n)),
{
    lemma_decimal(n, 1);
    lemma_numeral(n, 1);
    lemma_number(decimal(n));
}

// ---------------------------------------------------------------------------
// Lists and objects
// ---------------------------------------------------------------------------
/// Joined texts from the front.
proof fn lemma_joined_front(parts: Seq<Seq<char>>, separator: Seq<char>)
    requires
        parts.len() > 1,
    ensures
        joined(parts, separator) == parts[0] + (separator + joined(parts.skip(1), separator)),
    decreases parts.len(),
{
    let u = parts.drop_last();
    let v = parts.skip(1);
    let last = separator + parts.last();
    if u.len() == 1 {
        assert(joined(u, separator) == parts[0]);
        assert(v.len() == 1 && v[0] == parts.last());
        assert(joined(v, separator) == parts.last());
        assert(parts[0] + separator + parts.last() == parts[0] + (separator + parts.last()));
    } else {
        lemma_joined_front(u, separator);
        assert(u.skip(1) == v.drop_last());
        let mid = joined(v.drop_last(), separator);
        assert(v.last() == parts.last());
        assert(joined(v, separator) == mid + separator + parts.last());
        assert(parts[0] + (separator + mid) + separator + parts.last() == parts[0] + (separator + (
        mid + separator + parts.last())));
    }
}

/// Plain texts in quotes, with commas between.
proof fn lemma_quoted_list(parts: Seq<Seq<char>>, rest: Seq<char>)
    requires
        parts.len() > 0,
        forall|i: int| 0 <= i < parts.len() ==> is_plain(#[trigger] parts[i]),
    ensures
        elements(joined(quoted(parts), ", "@) + ("]"@ + rest)) == Some(
            (parts.map_values(|p: Seq<char>| Json::Text(p)), rest),
        ),
        joined(quoted(parts), ", "@).len() > 0,
        joined(quoted(parts), ", "@)[0] == '"',
    decreases parts.len(),
{
    lemma_assoc();
    reveal_strlit("\"");
    reveal_strlit(", ");
    reveal_strlit(",");
    reveal_strlit(" ");
    let all = quoted(parts);
    let first = "\""@ + parts[0] + "\""@;
    let vals = parts.map_values(|p: Seq<char>| Json::Text(p));
    assert(all[0] == first);
    lemma_plain_string(parts[0]);
    if parts.len() == 1 {
        let none = Seq::<char>::empty();
        lemma_last_element(first, Json::Text(parts[0]), none, rest);
        assert(none + ("]"@ + rest) == "]"@ + rest);
        assert(joined(all, ", "@) == first);
        assert(vals == seq![Json::Text(parts[0])]);
    } else {
        let others = parts.skip(1);
        assert forall|i: int| 0 <= i < others.len() implies is_plain(#[trigger] others[i]) by {
            assert(others[i] == parts[i + 1]);
        }
        lemma_quoted_list(others, rest);
        lemma_joined_front(all, ", "@);
        assert(all.skip(1) == quoted(others));
        let tail = joined(quoted(others), ", "@) + ("]"@ + rest);
        assert(", "@ == ","@ + " "@);
        assert(all_blank(" "@));
        let more = others.map_values(|p: Seq<char>| Json::Text(p));
        assert(tail[0] == '"');
        lemma_more_elements(first, Json::Text(parts[0]), " "@, tail, more, rest);
        assert(seq![Json::Text(parts[0])] + more == vals);
    }
}

/// Plain texts in quotes, with commas between, in brackets.
proof fn lemma_texts(parts: Seq<Seq<char>>)
    requires
        forall|i: int| 0 <= i < parts.len() ==> is_plain(#[trigger] parts[i]),
    ensures
        is_value(
            "["@ + joined(quoted(parts), ", "@) + "]"@,
            Json::List(parts.map_values(|p: Seq<char>| Json::Text(p))),
        ),
{
    reveal_strlit("[");
    let vals = parts.map_values(|p: Seq<char>| Json::Text(p));
    let s = "["@ + joined(quoted(parts), ", "@) + "]"@;
    assert(s[0] == '[');
    assert forall|rest: Seq<char>| is_end(rest) implies #[trigger] value(s + rest) == Some(
        (Json::List(vals), rest),
    ) by {
        lemma_assoc();
        let none = Seq::<char>::empty();
        let end = "]"@ + rest;
        if parts.len() == 0 {
            lemma_empty_list(none, rest);
            assert(none + end == end);
            assert(joined(quoted(parts), ", "@) == none);
            assert(vals == Seq::<Json>::empty());
        } else {
            lemma_quoted_list(parts, rest);
            let t = joined(quoted(parts), ", "@) + end;
            assert(t[0] == '"');
            lemma_list(none, t, vals, rest);
            assert(none + t == t);
        }
    }
}

/// Are the texts the same?
spec fn is_same(a: Seq<char>, b: Seq<char>) -> bool {
    a == b
}

/// A key, its value, and what is behind it.
#[verifier::opaque]
spec fn field(key: Seq<char>, v: Seq<char>, rest: Seq<char>) -> Seq<char> {
    "\""@ + (key + ("\": "@ + (v + rest)))
}

/// A comma and white space before `t`.
#[verifier::opaque]
spec fn comma(w: Seq<char>, t: Seq<char>) -> Seq<char> {
    ","@ + (w + t)
}

/// A key with its value, a comma and what is behind it; and with more behind that.
proof fn lemma_comma_rest(
    key: Seq<char>,
    v: Seq<char>,
    w: Seq<char>,
    t: Seq<char>,
    rest: Seq<char>,
)
    ensures
        field(key, v, comma(w, t)) + rest == field(key, v, comma(w, t + rest)),
{
    reveal(field);
    reveal(comma);
    lemma_assoc();
    assert(is_same(field(key, v, comma(w, t)) + rest, field(key, v, comma(w, t + rest))));
}

proof fn lemma_field_rest(key: Seq<char>, v: Seq<char>, t: Seq<char>, rest: Seq<char>)
    ensures
        field(key, v, t) + rest == field(key, v, t + rest),
{
    reveal(field);
    lemma_assoc();
    assert(is_same(field(key, v, t) + rest, field(key, v, t + rest)));
}

/// A member that is not the last.
proof fn lemma_field(
    key: Seq<char>,
    v: Seq<char>,
    j: Json,
    w: Seq<char>,
    t: Seq<char>,
    others: Seq<(Seq<char>, Json)>,
    rest: Seq<char>,
)
    requires
        is_plain(key),
        is_value(v, j),
        all_blank(w),
        t.len() > 0,
        t[0] == '"',
        members(t) == Some((others, rest)),
    ensures
        members(field(key, v, comma(w, t))) == Some((seq![(key, j)] + others, rest)),
        field(key, v, comma(w, t))[0] == '"',
{
    reveal(field);
    reveal(comma);
    reveal_strlit("\"");
    reveal_strlit(",");
    let behind = ","@ + (w + t);
    assert(behind[0] == ',');
    assert(value(v + behind) == Some((j, behind)));
    assert((v + behind)[0] == v[0]);
    lemma_more_members(key, v + behind, j, w, t, others, rest);
}

/// The last member.
proof fn lemma_last_field(key: Seq<char>, v: Seq<char>, j: Json, w: Seq<char>, rest: Seq<char>)
    requires
        is_plain(key),
        is_value(v, j),
        all_blank(w),
    ensures
        members(field(key, v, w + ("}"@ + rest))) == Some((seq![(key, j)], rest)),
        field(key, v, w + ("}"@ + rest))[0] == '"',
{
    reveal(field);
    reveal_strlit("\"");
    reveal_strlit("}");
    let behind = w + ("}"@ + rest);
    assert(behind[0] == if w.len() > 0 {
        w[0]
    } else {
        '}'
    });
    assert(value(v + behind) == Some((j, behind)));
    assert((v + behind)[0] == v[0]);
    lemma_last_member(key, v + behind, j, w, rest);
}

// ---------------------------------------------------------------------------
// Lines
// ---------------------------------------------------------------------------
/// The first `k` items, each on a line of its own, with commas between.
spec fn lines(items: Seq<Seq<char>>, k: int) -> Seq<char>
    decreases k,
{
    if k <= 0 {
        seq![]
    } else {
        lines(items, k - 1) + items[k - 1] + (if k < items.len() {
            ","@
        } else {
            ""@
        }) + "\n"@
    }
}

/// The items from the `k`-th on, without what stands before it on its line.
spec fn lines_from(cores: Seq<Seq<char>>, pad: Seq<char>, k: int) -> Seq<char>
    decreases cores.len() - k,
{
    if k + 1 >= cores.len() {
        cores[k] + "\n"@
    } else {
        cores[k] + (","@ + ("\n"@ + (pad + lines_from(cores, pad, k + 1))))
    }
}

proof fn lemma_lines_from(items: Seq<Seq<char>>, cores: Seq<Seq<char>>, pad: Seq<char>, k: int)
    requires
        items.len() == cores.len(),
        0 <= k < items.len(),
        forall|i: int| 0 <= i < items.len() ==> #[trigger] items[i] == pad + cores[i],
    ensures
        lines(items, items.len() as int) == lines(items, k) + (pad + lines_from(cores, pad, k)),
    decreases items.len() - k,
{
    let n = items.len() as int;
    let before = lines(items, k);
    reveal_strlit("");
    assert(items[k] == pad + cores[k]);
    if k + 1 == n {
        assert(lines(items, n) == before + items[k] + ""@ + "\n"@);
        assert(before + (pad + cores[k]) + ""@ + "\n"@ == before + (pad + (cores[k] + "\n"@)));
    } else {
        lemma_lines_from(items, cores, pad, k + 1);
        let tail = pad + lines_from(cores, pad, k + 1);
        assert(lines(items, k + 1) == before + items[k] + ","@ + "\n"@);
        assert(before + (pad + cores[k]) + ","@ + "\n"@ + tail == before + (pad + (cores[k] + (","@
            + ("\n"@ + tail)))));
    }
}

proof fn lemma_blanks()
    ensures
        all_blank(" "@),
        all_blank("\n"@ + "  "@),
        all_blank("\n"@ + "    "@),
        all_blank("\n"@),
{
    reveal_strlit(" ");
    reveal_strlit("\n");
    reveal_strlit("  ");
    reveal_strlit("    ");
}

proof fn lemma_lines_read(cores: Seq<Seq<char>>, vals: Seq<Json>, k: int, rest: Seq<char>)
    requires
        cores.len() == vals.len(),
        0 <= k < cores.len(),
        forall|i: int| 0 <= i < cores.len() ==> is_value(#[trigger] cores[i], vals[i]),
    ensures
        elements(lines_from(cores, "    "@, k) + ("  "@ + ("]"@ + rest))) == Some(
            (vals.skip(k), rest),
        ),
        lines_from(cores, "    "@, k).len() > 0,
        lines_from(cores, "    "@, k)[0] == cores[k][0],
    decreases cores.len() - k,
{
    lemma_assoc();
    lemma_blanks();
    let end = "  "@ + ("]"@ + rest);
    let pad = "    "@;
    assert(is_value(cores[k], vals[k]));
    if k + 1 == cores.len() {
        lemma_last_element(cores[k], vals[k], "\n"@ + "  "@, rest);
        assert(vals.skip(k) == seq![vals[k]]);
    } else {
        lemma_lines_read(cores, vals, k + 1, rest);
        let t = lines_from(cores, pad, k + 1) + end;
        assert(is_value(cores[k + 1], vals[k + 1]));
        assert(t[0] == cores[k + 1][0]);
        lemma_more_elements(cores[k], vals[k], "\n"@ + pad, t, vals.skip(k + 1), rest);
        assert(seq![vals[k]] + vals.skip(k + 1) == vals.skip(k));
    }
}

/// Items on lines of their own, in brackets.
proof fn lemma_line_list(
    items: Seq<Seq<char>>,
    cores: Seq<Seq<char>>,
    vals: Seq<Json>,
)
    requires
        items.len() == cores.len() == vals.len(),
        forall|i: int| 0 <= i < items.len() ==> #[trigger] items[i] == "    "@ + cores[i],
        forall|i: int| 0 <= i < cores.len() ==> is_value(#[trigger] cores[i], vals[i]),
    ensures
        is_value(
            "["@ + ("\n"@ + (lines(items, items.len() as int) + ("  "@ + "]"@))),
            Json::List(vals),
        ),
{
    reveal_strlit("[");
    let n = items.len() as int;
    let s = "["@ + ("\n"@ + (lines(items, n) + ("  "@ + "]"@)));
    assert(s[0] == '[');
    assert forall|rest: Seq<char>| is_end(rest) implies #[trigger] value(s + rest) == Some(
        (Json::List(vals), rest),
    ) by {
        lemma_assoc();
        lemma_blanks();
        let none = Seq::<char>::empty();
        let end = "  "@ + ("]"@ + rest);
        if n == 0 {
            lemma_empty_list("\n"@ + "  "@, rest);
            assert(lines(items, n) == none);
            assert(none + ("  "@ + "]"@) == "  "@ + "]"@);
            assert(vals == Seq::<Json>::empty());
        } else {
            lemma_lines_from(items, cores, "    "@, 0);
            lemma_lines_read(cores, vals, 0, rest);
            let body = lines_from(cores, "    "@, 0);
            assert(lines(items, 0) == none);
            assert(none + ("    "@ + body) == "    "@ + body);
            let t = body + end;
            assert(is_value(cores[0], vals[0]));
            assert(t[0] == cores[0][0]);
            assert(vals.skip(0) == vals);
            lemma_list("\n"@ + "    "@, t, vals, rest);
        }
    }
}

// ---------------------------------------------------------------------------
// Plans
// ---------------------------------------------------------------------------
/// What a rename says, as a value.
pub open spec fn move_value(m: Move) -> Json {
    Json::Object(
        seq![
            ("dir"@, Json::Text(m.dir)),
            ("from"@, Json::Text(m.from_display)),
            ("to"@, Json::Text(m.to)),
            ("reasons"@, Json::List(m.reasons.map_values(|r: Seq<char>| Json::Text(r)))),
        ],
    )
}

/// What a plan says, as a value.
pub open spec fn plan_value(root: Seq<char>, moves: Seq<Move>, applied: bool) -> Json {
    Json::Object(
        seq![
            ("tool"@, Json::Text("namefence"@)),
            ("version"@, Json::Text(VERSION@)),
            ("root"@, Json::Text(root)),
            ("applied"@, Json::Bool(applied)),
            ("renames"@, Json::List(moves.map_values(|m: Move| move_value(m)))),
        ],
    )
}

/// Are the reasons of a rename plain text?
pub open spec fn has_plain_reasons(m: Move) -> bool {
    forall|i: int| 0 <= i < m.reasons.len() ==> is_plain(#[trigger] m.reasons[i])
}

proof fn lemma_move_keys()
    ensures
        is_plain("dir"@),
        is_plain("from"@),
        is_plain("to"@),
        is_plain("reasons"@),
{
    reveal_strlit("dir");
    reveal_strlit("from");
    reveal_strlit("to");
    reveal_strlit("reasons");
}

proof fn lemma_move_literals()
    ensures
        "    {\"dir\": \""@ == "    "@ + ("{"@ + ("\""@ + ("dir"@ + ("\": "@ + "\""@)))),
        "\", \"from\": \""@ == "\""@ + (","@ + (" "@ + ("\""@ + ("from"@ + ("\": "@ + "\""@))))),
        "\", \"to\": \""@ == "\""@ + (","@ + (" "@ + ("\""@ + ("to"@ + ("\": "@ + "\""@))))),
        "\", \"reasons\": ["@ == "\""@ + (","@ + (" "@ + ("\""@ + ("reasons"@ + ("\": "@
            + "["@))))),
        "]}"@ == "]"@ + "}"@,
{
    reveal_strlit("    {\"dir\": \"");
    reveal_strlit("\", \"from\": \"");
    reveal_strlit("\", \"to\": \"");
    reveal_strlit("\", \"reasons\": [");
    reveal_strlit("]}");
    reveal_strlit("]");
    reveal_strlit("[");
    reveal_strlit("{");
    reveal_strlit("}");
    reveal_strlit("    ");
    reveal_strlit(" ");
    reveal_strlit(",");
    reveal_strlit("\"");
    reveal_strlit("\": ");
    reveal_strlit("dir");
    reveal_strlit("from");
    reveal_strlit("to");
    reveal_strlit("reasons");
}

/// A rename without the spaces at the start of its line.
spec fn move_text(m: Move) -> Seq<char> {
    let reasons = "["@ + joined(quoted(m.reasons), ", "@) + "]"@;
    let e4 = field("reasons"@, reasons, "}"@);
    let e3 = field("to"@, "\""@ + escaped(m.to) + "\""@, comma(" "@, e4));
    let e2 = field("from"@, "\""@ + escaped(m.from_display) + "\""@, comma(" "@, e3));
    "{"@ + field("dir"@, "\""@ + escaped(m.dir) + "\""@, comma(" "@, e2))
}

proof fn lemma_move_text(m: Move)
    ensures
        move_json(m) == "    "@ + move_text(m),
{
    lemma_move_literals();
    lemma_assoc();
    reveal(field);
    reveal(comma);
    assert(is_same(move_json(m), "    "@ + move_text(m)));
}

/// A rename behind the spaces at the start of its line is its value.
proof fn lemma_move(m: Move)
    requires
        has_plain_reasons(m),
    ensures
        move_json(m) == "    "@ + move_text(m),
        is_value(move_text(m), move_value(m)),
{
    lemma_move_text(m);
    let core = move_text(m);
    assert(core.len() > 0 && core[0] == '{') by {
        reveal_strlit("{");
    }
    assert forall|rest: Seq<char>| is_end(rest) implies #[trigger] value(core + rest) == Some(
        (move_value(m), rest),
    ) by {
        lemma_move_value(m, rest);
    }
}

proof fn lemma_move_value(m: Move, rest: Seq<char>)
    requires
        has_plain_reasons(m),
    ensures
        value(move_text(m) + rest) == Some((move_value(m), rest)),
{
    lemma_move_keys();
    lemma_blanks();
    let reasons = "["@ + joined(quoted(m.reasons), ", "@) + "]"@;
    let list = Json::List(m.reasons.map_values(|r: Seq<char>| Json::Text(r)));
    let v1 = "\""@ + escaped(m.dir) + "\""@;
    let v2 = "\""@ + escaped(m.from_display) + "\""@;
    let v3 = "\""@ + escaped(m.to) + "\""@;
    law_strings_read_back(m.dir);
    law_strings_read_back(m.from_display);
    law_strings_read_back(m.to);
    lemma_texts(m.reasons);
    let none = Seq::<char>::empty();
    let end = "}"@ + rest;
    assert(none + end == end);
    let e4 = field("reasons"@, reasons, "}"@);
    let e3 = field("to"@, v3, comma(" "@, e4));
    let e2 = field("from"@, v2, comma(" "@, e3));
    let e1 = field("dir"@, v1, comma(" "@, e2));
    let t4 = field("reasons"@, reasons, end);
    let t3 = field("to"@, v3, comma(" "@, t4));
    let t2 = field("from"@, v2, comma(" "@, t3));
    let t1 = field("dir"@, v1, comma(" "@, t2));
    let f4 = seq![("reasons"@, list)];
    let f3 = seq![("to"@, Json::Text(m.to))] + f4;
    let f2 = seq![("from"@, Json::Text(m.from_display))] + f3;
    let f1 = seq![("dir"@, Json::Text(m.dir))] + f2;
    lemma_last_field("reasons"@, reasons, list, none, rest);
    lemma_field("to"@, v3, Json::Text(m.to), " "@, t4, f4, rest);
    lemma_field("from"@, v2, Json::Text(m.from_display), " "@, t3, f3, rest);
    lemma_field("dir"@, v1, Json::Text(m.dir), " "@, t2, f2, rest);
    lemma_object(none, t1, f1, rest);
    assert(none + t1 == t1);
    lemma_field_rest("reasons"@, reasons, "}"@, rest);
    lemma_comma_rest("to"@, v3, " "@, e4, rest);
    lemma_comma_rest("from"@, v2, " "@, e3, rest);
    lemma_comma_rest("dir"@, v1, " "@, e2, rest);
    assert("{"@ + e1 + rest == "{"@ + (e1 + rest));
    assert(f1 == seq![
        ("dir"@, Json::Text(m.dir)),
        ("from"@, Json::Text(m.from_display)),
        ("to"@, Json::Text(m.to)),
        ("reasons"@, list),
    ]);
}

proof fn lemma_moves_lines(moves: Seq<Move>, k: int)
    requires
        0 <= k <= moves.len(),
    ensures
        moves_json(moves, k) == lines(moves.map_values(|m: Move| move_json(m)), k),
    decreases k,
{
    if k > 0 {
        lemma_moves_lines(moves, k - 1);
    }
}

proof fn lemma_head_keys()
    ensures
        is_plain("tool"@),
        is_plain("namefence"@),
        is_plain("version"@),
        is_plain("root"@),
        is_plain(VERSION@),
{
    reveal_strlit("tool");
    reveal_strlit("namefence");
    reveal_strlit("version");
    reveal_strlit("root");
    reveal_strlit("0.1.0");
}

proof fn lemma_head_literals()
    ensures
        "{\n  \"tool\": \"namefence\",\n  \"version\": \""@ == "{"@ + ("\n"@ + ("  "@ + ("\""@ + (
        "tool"@ + ("\": "@ + ("\""@ + ("namefence"@ + ("\""@ + (","@ + ("\n"@ + ("  "@ + ("\""@ + (
        "version"@ + ("\": "@ + "\""@)))))))))))))),
        "\",\n  \"root\": \""@ == "\""@ + (","@ + ("\n"@ + ("  "@ + ("\""@ + ("root"@ + ("\": "@
            + "\""@)))))),
        "\",\n"@ == "\""@ + (","@ + "\n"@),
{
    reveal_strlit("{\n  \"tool\": \"namefence\",\n  \"version\": \"");
    reveal_strlit("\",\n  \"root\": \"");
    reveal_strlit("\",\n");
    reveal_strlit("{");
    reveal_strlit("\n");
    reveal_strlit("  ");
    reveal_strlit("\"");
    reveal_strlit("\": ");
    reveal_strlit(",");
    reveal_strlit("tool");
    reveal_strlit("namefence");
    reveal_strlit("version");
    reveal_strlit("root");
}

proof fn lemma_head_text(root: Seq<char>, t: Seq<char>)
    ensures
        ({
            let w = "\n"@ + "  "@;
            let t3 = field("root"@, "\""@ + escaped(root) + "\""@, comma(w, t));
            let t2 = field("version"@, "\""@ + VERSION@ + "\""@, comma(w, t3));
            let t1 = field("tool"@, "\""@ + "namefence"@ + "\""@, comma(w, t2));
            json_head(root) + ("  "@ + t) == "{"@ + (w + t1)
        }),
{
    lemma_head_literals();
    lemma_assoc();
    reveal(field);
    reveal(comma);
    let w = "\n"@ + "  "@;
    let t3 = field("root"@, "\""@ + escaped(root) + "\""@, comma(w, t));
    let t2 = field("version"@, "\""@ + VERSION@ + "\""@, comma(w, t3));
    let t1 = field("tool"@, "\""@ + "namefence"@ + "\""@, comma(w, t2));
    assert(is_same(json_head(root) + ("  "@ + t), "{"@ + (w + t1)));
}

/// The start of a document: its first three members.
proof fn lemma_head(
    root: Seq<char>,
    t: Seq<char>,
    others: Seq<(Seq<char>, Json)>,
)
    requires
        t.len() > 0,
        t[0] == '"',
        members(t) == Some((others, "\n"@)),
    ensures
        document(json_head(root) + ("  "@ + t)) == Some(
            Json::Object(
                seq![
                    ("tool"@, Json::Text("namefence"@)),
                    ("version"@, Json::Text(VERSION@)),
                    ("root"@, Json::Text(root)),
                ] + others,
            ),
        ),
{
    lemma_head_keys();
    lemma_blanks();
    let w = "\n"@ + "  "@;
    let rest = "\n"@;
    lemma_plain_string("namefence"@);
    lemma_plain_string(VERSION@);
    law_strings_read_back(root);
    let v1 = "\""@ + "namefence"@ + "\""@;
    let v2 = "\""@ + VERSION@ + "\""@;
    let v3 = "\""@ + escaped(root) + "\""@;
    lemma_field("root"@, v3, Json::Text(root), w, t, others, rest);
    let t3 = field("root"@, v3, comma(w, t));
    let f3 = seq![("root"@, Json::Text(root))] + others;
    lemma_field("version"@, v2, Json::Text(VERSION@), w, t3, f3, rest);
    let t2 = field("version"@, v2, comma(w, t3));
    let f2 = seq![("version"@, Json::Text(VERSION@))] + f3;
    lemma_field("tool"@, v1, Json::Text("namefence"@), w, t2, f2, rest);
    let t1 = field("tool"@, v1, comma(w, t2));
    let f1 = seq![("tool"@, Json::Text("namefence"@))] + f2;
    lemma_object(w, t1, f1, rest);
    let all = "{"@ + (w + t1);
    lemma_head_text(root, t);
    assert(all.len() > 0 && all[0] == '{') by {
        reveal_strlit("{");
    }
    lemma_unblanked(Seq::<char>::empty(), all);
    assert(Seq::<char>::empty() + all == all);
    lemma_unblanked(rest, Seq::<char>::empty());
    assert(rest + Seq::<char>::empty() == rest);
    assert(f1 == seq![
        ("tool"@, Json::Text("namefence"@)),
        ("version"@, Json::Text(VERSION@)),
        ("root"@, Json::Text(root)),
    ] + others);
}

proof fn lemma_plan_keys()
    ensures
        is_plain("applied"@),
        is_plain("renames"@),
{
    reveal_strlit("applied");
    reveal_strlit("renames");
}

proof fn lemma_plan_literals()
    ensures
        "  \"applied\": "@ == "  "@ + ("\""@ + ("applied"@ + "\": "@)),
        ",\n  \"renames\": [\n"@ == ","@ + ("\n"@ + ("  "@ + ("\""@ + ("renames"@ + ("\": "@ + ("["@
            + "\n"@)))))),
        "  ]\n}\n"@ == "  "@ + ("]"@ + ("\n"@ + ("}"@ + "\n"@))),
{
    reveal_strlit("  \"applied\": ");
    reveal_strlit(",\n  \"renames\": [\n");
    reveal_strlit("  ]\n}\n");
    reveal_strlit("  ");
    reveal_strlit("\"");
    reveal_strlit("\": ");
    reveal_strlit(",");
    reveal_strlit("\n");
    reveal_strlit("[");
    reveal_strlit("]");
    reveal_strlit("}");
    reveal_strlit("applied");
    reveal_strlit("renames");
}

/// A plan in JSON reads back: whatever the number of renames, it is one JSON text,
/// and that text holds the root, whether the plan was carried out, and each rename
/// with its directory, its two names and its reasons, in order.
pub proof fn law_plans_read_back(root: Seq<char>, moves: Seq<Move>, applied: bool)
    requires
        forall|i: int| 0 <= i < moves.len() ==> has_plain_reasons(#[trigger] moves[i]),
    ensures
        document(json_plan(root, moves, applied)) == Some(plan_value(root, moves, applied)),
{
    lemma_plan_keys();
    lemma_blanks();
    lemma_words();
    let n = moves.len() as int;
    let items = moves.map_values(|m: Move| move_json(m));
    let cores = moves.map_values(|m: Move| move_text(m));
    let vals = moves.map_values(|m: Move| move_value(m));
    assert forall|i: int| 0 <= i < items.len() implies #[trigger] items[i] == "    "@
        + cores[i] by {
        assert(has_plain_reasons(moves[i]));
        lemma_move(moves[i]);
    }
    assert forall|i: int| 0 <= i < cores.len() implies is_value(#[trigger] cores[i], vals[i]) by {
        assert(has_plain_reasons(moves[i]));
        lemma_move(moves[i]);
    }
    lemma_line_list(items, cores, vals);
    lemma_moves_lines(moves, n);
    let list = "["@ + ("\n"@ + (lines(items, n) + ("  "@ + "]"@)));
    let rest = "\n"@;
    lemma_last_field("renames"@, list, Json::List(vals), "\n"@, rest);
    let t5 = field("renames"@, list, "\n"@ + ("}"@ + rest));
    let f5 = seq![("renames"@, Json::List(vals))];
    let w = "\n"@ + "  "@;
    lemma_field("applied"@, bool_json(applied), Json::Bool(applied), w, t5, f5, rest);
    let t4 = field("applied"@, bool_json(applied), comma(w, t5));
    let f4 = seq![("applied"@, Json::Bool(applied))] + f5;
    lemma_head(root, t4, f4);
    assert(is_same(json_plan(root, moves, applied), json_head(root) + ("  "@ + t4))) by {
        lemma_plan_literals();
        lemma_assoc();
        reveal(field);
        reveal(comma);
    }
    assert(seq![
        ("tool"@, Json::Text("namefence"@)),
        ("version"@, Json::Text(VERSION@)),
        ("root"@, Json::Text(root)),
    ] + f4 == seq![
        ("tool"@, Json::Text("namefence"@)),
        ("version"@, Json::Text(VERSION@)),
        ("root"@, Json::Text(root)),
        ("applied"@, Json::Bool(applied)),
        ("renames"@, Json::List(vals)),
    ]);
}

// ---------------------------------------------------------------------------
// Reports
// ---------------------------------------------------------------------------
/// A fix, as a value.
pub open spec fn fix_value(fix: Option<Seq<char>>) -> Json {
    match fix {
        Some(f) => Json::Text(f),
        None => Json::Null,
    }
}

/// What a finding says, as a value.
pub open spec fn finding_value(f: Report) -> Json {
    Json::Object(
        seq![
            ("path"@, Json::Text(f.path)),
            ("check"@, Json::Text(f.check.id)),
            ("name"@, Json::Text(f.check.name)),
            ("severity"@, Json::Text(f.check.severity.label())),
            ("message"@, Json::Text(f.message)),
            ("fix"@, fix_value(f.fix)),
        ],
    )
}

/// The numbers of a scan, as a value.
pub open spec fn stats_value(s: Stats) -> Json {
    Json::Object(
        seq![
            ("files"@, Json::Number(s.files as nat)),
            ("dirs"@, Json::Number(s.dirs as nat)),
            ("errors"@, Json::Number(s.errors as nat)),
            ("warnings"@, Json::Number(s.warnings as nat)),
            ("infos"@, Json::Number(s.infos as nat)),
            ("truncated"@, Json::Bool(s.truncated)),
        ],
    )
}

/// What a report says, as a value.
pub open spec fn report_value(root: Seq<char>, reports: Seq<Report>, stats: Stats) -> Json {
    Json::Object(
        seq![
            ("tool"@, Json::Text("namefence"@)),
            ("version"@, Json::Text(VERSION@)),
            ("root"@, Json::Text(root)),
            ("findings"@, Json::List(reports.map_values(|f: Report| finding_value(f)))),
            ("stats"@, stats_value(stats)),
        ],
    )
}

/// Are the ID and the name of the check plain text?
pub open spec fn has_plain_check(f: Report) -> bool {
    is_plain(f.check.id) && is_plain(f.check.name)
}

proof fn lemma_finding_keys()
    ensures
        is_plain("path"@),
        is_plain("check"@),
        is_plain("name"@),
        is_plain("severity"@),
        is_plain("message"@),
        is_plain("fix"@),
        is_plain("error"@),
        is_plain("warning"@),
        is_plain("info"@),
{
    reveal_strlit("path");
    reveal_strlit("check");
    reveal_strlit("name");
    reveal_strlit("severity");
    reveal_strlit("message");
    reveal_strlit("fix");
    reveal_strlit("error");
    reveal_strlit("warning");
    reveal_strlit("info");
}

proof fn lemma_finding_literals()
    ensures
        "    {\"path\": \""@ == "    "@ + ("{"@ + ("\""@ + ("path"@ + ("\": "@ + "\""@)))),
        "\", \"check\": \""@ == "\""@ + (","@ + (" "@ + ("\""@ + ("check"@ + ("\": "@
            + "\""@))))),
        "\", \"name\": \""@ == "\""@ + (","@ + (" "@ + ("\""@ + ("name"@ + ("\": "@ + "\""@))))),
        "\", \"severity\": \""@ == "\""@ + (","@ + (" "@ + ("\""@ + ("severity"@ + ("\": "@
            + "\""@))))),
        "\", \"message\": \""@ == "\""@ + (","@ + (" "@ + ("\""@ + ("message"@ + ("\": "@
            + "\""@))))),
        "\", \"fix\": "@ == "\""@ + (","@ + (" "@ + ("\""@ + ("fix"@ + "\": "@)))),
{
    reveal_strlit("    {\"path\": \"");
    reveal_strlit("\", \"check\": \"");
    reveal_strlit("\", \"name\": \"");
    reveal_strlit("\", \"severity\": \"");
    reveal_strlit("\", \"message\": \"");
    reveal_strlit("\", \"fix\": ");
    reveal_strlit("    ");
    reveal_strlit("{");
    reveal_strlit(" ");
    reveal_strlit(",");
    reveal_strlit("\"");
    reveal_strlit("\": ");
    reveal_strlit("path");
    reveal_strlit("check");
    reveal_strlit("name");
    reveal_strlit("severity");
    reveal_strlit("message");
    reveal_strlit("fix");
}

/// A finding without the spaces at the start of its line.
spec fn finding_text(f: Report) -> Seq<char> {
    let e6 = field("fix"@, fix_json(f.fix), "}"@);
    let e5 = field("message"@, "\""@ + escaped(f.message) + "\""@, comma(" "@, e6));
    let e4 = field("severity"@, "\""@ + f.check.severity.label() + "\""@, comma(" "@, e5));
    let e3 = field("name"@, "\""@ + f.check.name + "\""@, comma(" "@, e4));
    let e2 = field("check"@, "\""@ + f.check.id + "\""@, comma(" "@, e3));
    "{"@ + field("path"@, "\""@ + escaped(f.path) + "\""@, comma(" "@, e2))
}

proof fn lemma_finding_text(f: Report)
    ensures
        finding_json(f) == "    "@ + finding_text(f),
{
    lemma_finding_literals();
    lemma_assoc();
    reveal(field);
    reveal(comma);
    assert(is_same(finding_json(f), "    "@ + finding_text(f)));
}

/// A finding behind the spaces at the start of its line is its value.
proof fn lemma_finding(f: Report)
    requires
        has_plain_check(f),
    ensures
        finding_json(f) == "    "@ + finding_text(f),
        is_value(finding_text(f), finding_value(f)),
{
    lemma_finding_text(f);
    let core = finding_text(f);
    assert(core.len() > 0 && core[0] == '{') by {
        reveal_strlit("{");
    }
    assert forall|rest: Seq<char>| is_end(rest) implies #[trigger] value(core + rest) == Some(
        (finding_value(f), rest),
    ) by {
        lemma_finding_value(f, rest);
    }
}

proof fn lemma_finding_value(f: Report, rest: Seq<char>)
    requires
        has_plain_check(f),
    ensures
        value(finding_text(f) + rest) == Some((finding_value(f), rest)),
{
    lemma_finding_keys();
    lemma_blanks();
    let label = f.check.severity.label();
    let v1 = "\""@ + escaped(f.path) + "\""@;
    let v2 = "\""@ + f.check.id + "\""@;
    let v3 = "\""@ + f.check.name + "\""@;
    let v4 = "\""@ + label + "\""@;
    let v5 = "\""@ + escaped(f.message) + "\""@;
    let v6 = fix_json(f.fix);
    let j6 = fix_value(f.fix);
    assert(is_plain(label));
    law_strings_read_back(f.path);
    law_strings_read_back(f.message);
    lemma_plain_string(f.check.id);
    lemma_plain_string(f.check.name);
    lemma_plain_string(label);
    lemma_words();
    if f.fix is Some {
        law_strings_read_back(f.fix->0);
    }
    let none = Seq::<char>::empty();
    let end = "}"@ + rest;
    assert(none + end == end);
    let e6 = field("fix"@, v6, "}"@);
    let e5 = field("message"@, v5, comma(" "@, e6));
    let e4 = field("severity"@, v4, comma(" "@, e5));
    let e3 = field("name"@, v3, comma(" "@, e4));
    let e2 = field("check"@, v2, comma(" "@, e3));
    let e1 = field("path"@, v1, comma(" "@, e2));
    let t6 = field("fix"@, v6, end);
    let t5 = field("message"@, v5, comma(" "@, t6));
    let t4 = field("severity"@, v4, comma(" "@, t5));
    let t3 = field("name"@, v3, comma(" "@, t4));
    let t2 = field("check"@, v2, comma(" "@, t3));
    let t1 = field("path"@, v1, comma(" "@, t2));
    let f6 = seq![("fix"@, j6)];
    let f5 = seq![("message"@, Json::Text(f.message))] + f6;
    let f4 = seq![("severity"@, Json::Text(label))] + f5;
    let f3 = seq![("name"@, Json::Text(f.check.name))] + f4;
    let f2 = seq![("check"@, Json::Text(f.check.id))] + f3;
    let f1 = seq![("path"@, Json::Text(f.path))] + f2;
    lemma_last_field("fix"@, v6, j6, none, rest);
    lemma_field("message"@, v5, Json::Text(f.message), " "@, t6, f6, rest);
    lemma_field("severity"@, v4, Json::Text(label), " "@, t5, f5, rest);
    lemma_field("name"@, v3, Json::Text(f.check.name), " "@, t4, f4, rest);
    lemma_field("check"@, v2, Json::Text(f.check.id), " "@, t3, f3, rest);
    lemma_field("path"@, v1, Json::Text(f.path), " "@, t2, f2, rest);
    lemma_object(none, t1, f1, rest);
    assert(none + t1 == t1);
    lemma_field_rest("fix"@, v6, "}"@, rest);
    lemma_comma_rest("message"@, v5, " "@, e6, rest);
    lemma_comma_rest("severity"@, v4, " "@, e5, rest);
    lemma_comma_rest("name"@, v3, " "@, e4, rest);
    lemma_comma_rest("check"@, v2, " "@, e3, rest);
    lemma_comma_rest("path"@, v1, " "@, e2, rest);
    assert("{"@ + e1 + rest == "{"@ + (e1 + rest));
    let fields = seq![
        ("path"@, Json::Text(f.path)),
        ("check"@, Json::Text(f.check.id)),
        ("name"@, Json::Text(f.check.name)),
        ("severity"@, Json::Text(label)),
        ("message"@, Json::Text(f.message)),
        ("fix"@, j6),
    ];
    assert(f1 == fields);
    assert(finding_value(f) == Json::Object(fields));
    assert(finding_text(f) == "{"@ + e1);
    assert(e1 + rest == t1);
}

proof fn lemma_findings_lines(reports: Seq<Report>, k: int)
    requires
        0 <= k <= reports.len(),
    ensures
        findings_json(reports, k) == lines(reports.map_values(|f: Report| finding_json(f)), k),
    decreases k,
{
    if k > 0 {
        lemma_findings_lines(reports, k - 1);
    }
}

proof fn lemma_stats_keys()
    ensures
        is_plain("stats"@),
        is_plain("files"@),
        is_plain("dirs"@),
        is_plain("errors"@),
        is_plain("warnings"@),
        is_plain("infos"@),
        is_plain("truncated"@),
{
    reveal_strlit("stats");
    reveal_strlit("files");
    reveal_strlit("dirs");
    reveal_strlit("errors");
    reveal_strlit("warnings");
    reveal_strlit("infos");
    reveal_strlit("truncated");
}

proof fn lemma_stats_literals()
    ensures
        "  \"stats\": {\"files\": "@ == "  "@ + ("\""@ + ("stats"@ + ("\": "@ + ("{"@ + ("\""@ + (
        "files"@ + "\": "@)))))),
        ", \"dirs\": "@ == ","@ + (" "@ + ("\""@ + ("dirs"@ + "\": "@))),
        ", \"errors\": "@ == ","@ + (" "@ + ("\""@ + ("errors"@ + "\": "@))),
        ", \"warnings\": "@ == ","@ + (" "@ + ("\""@ + ("warnings"@ + "\": "@))),
        ", \"infos\": "@ == ","@ + (" "@ + ("\""@ + ("infos"@ + "\": "@))),
        ", \"truncated\": "@ == ","@ + (" "@ + ("\""@ + ("truncated"@ + "\": "@))),
        "}\n"@ == "}"@ + "\n"@,
{
    reveal_strlit("  \"stats\": {\"files\": ");
    reveal_strlit(", \"dirs\": ");
    reveal_strlit(", \"errors\": ");
    reveal_strlit(", \"warnings\": ");
    reveal_strlit(", \"infos\": ");
    reveal_strlit(", \"truncated\": ");
    reveal_strlit("}\n");
    reveal_strlit("}");
    reveal_strlit("{");
    reveal_strlit("\n");
    reveal_strlit("  ");
    reveal_strlit(" ");
    reveal_strlit(",");
    reveal_strlit("\"");
    reveal_strlit("\": ");
    reveal_strlit("stats");
    reveal_strlit("files");
    reveal_strlit("dirs");
    reveal_strlit("errors");
    reveal_strlit("warnings");
    reveal_strlit("infos");
    reveal_strlit("truncated");
}

/// The object that holds the numbers of a scan.
spec fn stats_text(s: Stats) -> Seq<char> {
    let e6 = field("truncated"@, bool_json(s.truncated), "}"@);
    let e5 = field("infos"@, decimal(s.infos as nat), comma(" "@, e6));
    let e4 = field("warnings"@, decimal(s.warnings as nat), comma(" "@, e5));
    let e3 = field("errors"@, decimal(s.errors as nat), comma(" "@, e4));
    let e2 = field("dirs"@, decimal(s.dirs as nat), comma(" "@, e3));
    "{"@ + field("files"@, decimal(s.files as nat), comma(" "@, e2))
}

proof fn lemma_closing()
    ensures
        "}\n"@ == "}"@ + "\n"@,
{
    reveal_strlit("}\n");
    reveal_strlit("}");
    reveal_strlit("\n");
}

proof fn lemma_stats_text(s: Stats)
    ensures
        stats_json(s) == "  "@ + (field("stats"@, stats_text(s), "\n"@)),
{
    lemma_stats_literals();
    lemma_assoc();
    reveal(field);
    reveal(comma);
    assert(is_same(stats_json(s), "  "@ + (field("stats"@, stats_text(s), "\n"@))));
}

proof fn lemma_stats(s: Stats)
    ensures
        is_value(stats_text(s), stats_value(s)),
{
    let text = stats_text(s);
    assert(text.len() > 0 && text[0] == '{') by {
        reveal_strlit("{");
    }
    assert forall|rest: Seq<char>| is_end(rest) implies #[trigger] value(text + rest) == Some(
        (stats_value(s), rest),
    ) by {
        lemma_stats_value(s, rest);
    }
}

proof fn lemma_stats_value(s: Stats, rest: Seq<char>)
    ensures
        value(stats_text(s) + rest) == Some((stats_value(s), rest)),
{
    lemma_stats_keys();
    lemma_blanks();
    let v1 = decimal(s.files as nat);
    let v2 = decimal(s.dirs as nat);
    let v3 = decimal(s.errors as nat);
    let v4 = decimal(s.warnings as nat);
    let v5 = decimal(s.infos as nat);
    let v6 = bool_json(s.truncated);
    law_numbers_read_back(s.files as nat);
    law_numbers_read_back(s.dirs as nat);
    law_numbers_read_back(s.errors as nat);
    law_numbers_read_back(s.warnings as nat);
    law_numbers_read_back(s.infos as nat);
    lemma_words();
    let j1 = Json::Number(s.files as nat);
    let j2 = Json::Number(s.dirs as nat);
    let j3 = Json::Number(s.errors as nat);
    let j4 = Json::Number(s.warnings as nat);
    let j5 = Json::Number(s.infos as nat);
    let j6 = Json::Bool(s.truncated);
    let none = Seq::<char>::empty();
    let end = "}"@ + rest;
    assert(none + end == end);
    let e6 = field("truncated"@, v6, "}"@);
    let e5 = field("infos"@, v5, comma(" "@, e6));
    let e4 = field("warnings"@, v4, comma(" "@, e5));
    let e3 = field("errors"@, v3, comma(" "@, e4));
    let e2 = field("dirs"@, v2, comma(" "@, e3));
    let e1 = field("files"@, v1, comma(" "@, e2));
    let t6 = field("truncated"@, v6, end);
    let t5 = field("infos"@, v5, comma(" "@, t6));
    let t4 = field("warnings"@, v4, comma(" "@, t5));
    let t3 = field("errors"@, v3, comma(" "@, t4));
    let t2 = field("dirs"@, v2, comma(" "@, t3));
    let t1 = field("files"@, v1, comma(" "@, t2));
    let f6 = seq![("truncated"@, j6)];
    let f5 = seq![("infos"@, j5)] + f6;
    let f4 = seq![("warnings"@, j4)] + f5;
    let f3 = seq![("errors"@, j3)] + f4;
    let f2 = seq![("dirs"@, j2)] + f3;
    let f1 = seq![("files"@, j1)] + f2;
    lemma_last_field("truncated"@, v6, j6, none, rest);
    lemma_field("infos"@, v5, j5, " "@, t6, f6, rest);
    lemma_field("warnings"@, v4, j4, " "@, t5, f5, rest);
    lemma_field("errors"@, v3, j3, " "@, t4, f4, rest);
    lemma_field("dirs"@, v2, j2, " "@, t3, f3, rest);
    lemma_field("files"@, v1, j1, " "@, t2, f2, rest);
    lemma_object(none, t1, f1, rest);
    assert(none + t1 == t1);
    lemma_field_rest("truncated"@, v6, "}"@, rest);
    lemma_comma_rest("infos"@, v5, " "@, e6, rest);
    lemma_comma_rest("warnings"@, v4, " "@, e5, rest);
    lemma_comma_rest("errors"@, v3, " "@, e4, rest);
    lemma_comma_rest("dirs"@, v2, " "@, e3, rest);
    lemma_comma_rest("files"@, v1, " "@, e2, rest);
    assert("{"@ + e1 + rest == "{"@ + (e1 + rest));
    assert(f1 == seq![
        ("files"@, j1),
        ("dirs"@, j2),
        ("errors"@, j3),
        ("warnings"@, j4),
        ("infos"@, j5),
        ("truncated"@, j6),
    ]);
}

proof fn lemma_report_keys()
    ensures
        is_plain("findings"@),
{
    reveal_strlit("findings");
}

proof fn lemma_report_literals()
    ensures
        "  \"findings\": [\n"@ == "  "@ + ("\""@ + ("findings"@ + ("\": "@ + ("["@ + "\n"@)))),
        "  ],\n"@ == "  "@ + ("]"@ + (","@ + "\n"@)),
{
    reveal_strlit("  \"findings\": [\n");
    reveal_strlit("  ],\n");
    reveal_strlit("  ");
    reveal_strlit("\"");
    reveal_strlit("\": ");
    reveal_strlit(",");
    reveal_strlit("\n");
    reveal_strlit("[");
    reveal_strlit("]");
    reveal_strlit("findings");
}

proof fn lemma_report_text(root: Seq<char>, reports: Seq<Report>, stats: Stats)
    ensures
        ({
            let w = "\n"@ + "  "@;
            let list = "["@ + ("\n"@ + (findings_json(reports, reports.len() as int) + ("  "@
                + "]"@)));
            let t5 = field("stats"@, stats_text(stats), "\n"@ + ("}"@ + "\n"@));
            json_report(root, reports, stats) == json_head(root) + ("  "@ + field(
                "findings"@,
                list,
                comma(w, t5),
            ))
        }),
{
    lemma_stats_text(stats);
    lemma_report_literals();
    lemma_closing();
    lemma_assoc();
    reveal(field);
    reveal(comma);
    let w = "\n"@ + "  "@;
    let list = "["@ + ("\n"@ + (findings_json(reports, reports.len() as int) + ("  "@ + "]"@)));
    let t5 = field("stats"@, stats_text(stats), "\n"@ + ("}"@ + "\n"@));
    assert(is_same(
        json_report(root, reports, stats),
        json_head(root) + ("  "@ + field("findings"@, list, comma(w, t5))),
    ));
}

/// A report in JSON reads back: whatever the number of findings, it is one JSON
/// text, and that text holds the root, each finding with all that it says, in order,
/// and the numbers of the scan.
pub proof fn law_reports_read_back(root: Seq<char>, reports: Seq<Report>, stats: Stats)
    requires
        forall|i: int| 0 <= i < reports.len() ==> has_plain_check(#[trigger] reports[i]),
    ensures
        document(json_report(root, reports, stats)) == Some(report_value(root, reports, stats)),
{
    lemma_report_keys();
    lemma_stats_keys();
    lemma_blanks();
    let n = reports.len() as int;
    let items = reports.map_values(|f: Report| finding_json(f));
    let cores = reports.map_values(|f: Report| finding_text(f));
    let vals = reports.map_values(|f: Report| finding_value(f));
    assert forall|i: int| 0 <= i < items.len() implies #[trigger] items[i] == "    "@
        + cores[i] by {
        assert(has_plain_check(reports[i]));
        lemma_finding(reports[i]);
    }
    assert forall|i: int| 0 <= i < cores.len() implies is_value(#[trigger] cores[i], vals[i]) by {
        assert(has_plain_check(reports[i]));
        lemma_finding(reports[i]);
    }
    lemma_line_list(items, cores, vals);
    lemma_findings_lines(reports, n);
    lemma_stats(stats);
    let list = "["@ + ("\n"@ + (lines(items, n) + ("  "@ + "]"@)));
    let rest = "\n"@;
    lemma_last_field("stats"@, stats_text(stats), stats_value(stats), "\n"@, rest);
    let t5 = field("stats"@, stats_text(stats), "\n"@ + ("}"@ + rest));
    let f5 = seq![("stats"@, stats_value(stats))];
    let w = "\n"@ + "  "@;
    lemma_field("findings"@, list, Json::List(vals), w, t5, f5, rest);
    let t4 = field("findings"@, list, comma(w, t5));
    let f4 = seq![("findings"@, Json::List(vals))] + f5;
    lemma_head(root, t4, f4);
    lemma_report_text(root, reports, stats);
    assert(seq![
        ("tool"@, Json::Text("namefence"@)),
        ("version"@, Json::Text(VERSION@)),
        ("root"@, Json::Text(root)),
    ] + f4 == seq![
        ("tool"@, Json::Text("namefence"@)),
        ("version"@, Json::Text(VERSION@)),
        ("root"@, Json::Text(root)),
        ("findings"@, Json::List(vals)),
        ("stats"@, stats_value(stats)),
    ]);
}

// ---------------------------------------------------------------------------
// What the catalog holds
// ---------------------------------------------------------------------------
/// The IDs and names in the catalog are plain text.
pub proof fn law_catalog_is_plain(k: int)
    requires
        0 <= k < CHECK_COUNT,
    ensures
        is_plain(row(k).id),
        is_plain(row(k).name),
{
    reveal_strlit("NF001");
    reveal_strlit("NF002");
    reveal_strlit("NF003");
    reveal_strlit("NF004");
    reveal_strlit("NF005");
    reveal_strlit("NF006");
    reveal_strlit("NF007");
    reveal_strlit("NF008");
    reveal_strlit("NF009");
    reveal_strlit("NF010");
    reveal_strlit("NF011");
    reveal_strlit("NF012");
    reveal_strlit("NF013");
    reveal(row);
    reveal_strlit("windows-reserved-name");
    reveal_strlit("windows-illegal-char");
    reveal_strlit("control-character");
    reveal_strlit("trailing-dot-or-space");
    reveal_strlit("leading-space");
    reveal_strlit("case-collision");
    reveal_strlit("normalization-collision");
    reveal_strlit("non-nfc");
    reveal_strlit("invisible-character");
    reveal_strlit("component-too-long");
    reveal_strlit("path-too-long");
    reveal_strlit("cloud-reserved-name");
    reveal_strlit("invalid-utf8");
}

} // verus!
