//! A reader of JSON texts: what a text stands for, if it is JSON. Of numbers it
//! takes those without a sign, a fraction and an exponent.

use vstd::prelude::*;

verus! {

/// What a JSON text stands for.
pub ghost enum Json {
    Null,
    Bool(bool),
    Number(nat),
    Text(Seq<char>),
    List(Seq<Json>),
    Object(Seq<(Seq<char>, Json)>),
}

/// Is `c` white space of JSON?
pub open spec fn is_blank(c: char) -> bool {
    c == ' ' || c == '\t' || c == '\n' || c == '\r'
}

/// `t` without the white space at its start.
pub open spec fn unblanked(t: Seq<char>) -> Seq<char>
    decreases t.len(),
{
    if t.len() > 0 && is_blank(t[0]) {
        unblanked(t.skip(1))
    } else {
        t
    }
}

// ---------------------------------------------------------------------------
// Strings
// ---------------------------------------------------------------------------
/// The number that a hexadecimal digit stands for.
pub open spec fn hex(c: char) -> Option<int> {
    if '0' <= c <= '9' {
        Some(c as int - 0x30)
    } else if 'a' <= c <= 'f' {
        Some(c as int - 0x61 + 10)
    } else if 'A' <= c <= 'F' {
        Some(c as int - 0x41 + 10)
    } else {
        None
    }
}

/// The character that a backslash and `c` stand for.
pub open spec fn short_escape(c: char) -> Option<char> {
    if c == '"' || c == '\\' || c == '/' {
        Some(c)
    } else if c == 'b' {
        Some('\u{8}')
    } else if c == 'f' {
        Some('\u{C}')
    } else if c == 'n' {
        Some('\n')
    } else if c == 'r' {
        Some('\r')
    } else if c == 't' {
        Some('\t')
    } else {
        None
    }
}

/// The character that four hexadecimal digits stand for.
pub open spec fn long_escape(a: char, b: char, c: char, d: char) -> Option<char> {
    match (hex(a), hex(b), hex(c), hex(d)) {
        (Some(p), Some(q), Some(r), Some(s)) => {
            let n = p * 0x1000 + q * 0x100 + r * 0x10 + s;
            if 0xD800 <= n <= 0xDFFF {
                None
            } else {
                Some(n as char)
            }
        },
        _ => None,
    }
}

/// The character that the inside of a string begins with, and the number of
/// characters that it is written in.
pub open spec fn first_char(t: Seq<char>) -> Option<(char, int)> {
    if t.len() == 0 || t[0] == '"' || ' ' > t[0] {
        None
    } else if t[0] != '\\' {
        Some((t[0], 1))
    } else if t.len() >= 2 && short_escape(t[1]) is Some {
        Some((short_escape(t[1])->0, 2))
    } else if t.len() >= 6 && t[1] == 'u' && long_escape(t[2], t[3], t[4], t[5]) is Some {
        Some((long_escape(t[2], t[3], t[4], t[5])->0, 6))
    } else {
        None
    }
}

/// The text up to the quote that ends a string, and what is behind it.
pub open spec fn string_end(t: Seq<char>) -> Option<(Seq<char>, Seq<char>)>
    decreases t.len(),
{
    if t.len() > 0 && t[0] == '"' {
        Some((seq![], t.skip(1)))
    } else {
        match first_char(t) {
            None => None,
            Some((c, n)) => match string_end(t.skip(n)) {
                None => None,
                Some((s, rest)) => Some((seq![c] + s, rest)),
            },
        }
    }
}

// ---------------------------------------------------------------------------
// Values
// ---------------------------------------------------------------------------
/// How many digits `t` begins with.
pub open spec fn digits(t: Seq<char>) -> int
    decreases t.len(),
{
    if t.len() > 0 && '0' <= t[0] <= '9' {
        1 + digits(t.skip(1))
    } else {
        0
    }
}

/// The number that the digits `t`, behind `n`, stand for.
pub open spec fn number(t: Seq<char>, n: nat) -> nat
    decreases t.len(),
{
    if t.len() == 0 {
        n
    } else {
        number(t.skip(1), 10 * n + (t[0] as nat - 0x30) as nat)
    }
}

/// Does `t` begin with `word`?
pub open spec fn has_word(t: Seq<char>, word: Seq<char>) -> bool {
    t.len() >= word.len() && t.take(word.len() as int) == word
}

/// The value that `t` begins with, and what is behind it.
pub open spec fn value(t: Seq<char>) -> Option<(Json, Seq<char>)>
    decreases t.len(), 0nat,
{
    if t.len() == 0 {
        None
    } else if t[0] == '"' {
        match string_end(t.skip(1)) {
            Some((s, rest)) => Some((Json::Text(s), rest)),
            None => None,
        }
    } else if t[0] == '[' {
        let u = unblanked(t.skip(1));
        if u.len() == 0 || u.len() >= t.len() {
            None
        } else if u[0] == ']' {
            Some((Json::List(seq![]), u.skip(1)))
        } else {
            match elements(u) {
                Some((items, rest)) => Some((Json::List(items), rest)),
                None => None,
            }
        }
    } else if t[0] == '{' {
        let u = unblanked(t.skip(1));
        if u.len() == 0 || u.len() >= t.len() {
            None
        } else if u[0] == '}' {
            Some((Json::Object(seq![]), u.skip(1)))
        } else {
            match members(u) {
                Some((fields, rest)) => Some((Json::Object(fields), rest)),
                None => None,
            }
        }
    } else if has_word(t, "null"@) {
        Some((Json::Null, t.skip(4)))
    } else if has_word(t, "true"@) {
        Some((Json::Bool(true), t.skip(4)))
    } else if has_word(t, "false"@) {
        Some((Json::Bool(false), t.skip(5)))
    } else if digits(t) == 1 || digits(t) > 1 && t[0] != '0' {
        Some((Json::Number(number(t.take(digits(t)), 0)), t.skip(digits(t))))
    } else {
        None
    }
}

/// The elements that stand before the end of a list, one or more, and what is
/// behind it.
pub open spec fn elements(t: Seq<char>) -> Option<(Seq<Json>, Seq<char>)>
    decreases t.len(), 1nat,
{
    match value(t) {
        None => None,
        Some((first, behind)) => {
            let u = unblanked(behind);
            if u.len() == 0 || u.len() >= t.len() {
                None
            } else if u[0] == ']' {
                Some((seq![first], u.skip(1)))
            } else if u[0] == ',' {
                let v = unblanked(u.skip(1));
                if v.len() >= t.len() {
                    None
                } else {
                    match elements(v) {
                        Some((others, rest)) => Some((seq![first] + others, rest)),
                        None => None,
                    }
                }
            } else {
                None
            }
        },
    }
}

/// The members that stand before the end of an object, one or more, and what is
/// behind it.
pub open spec fn members(t: Seq<char>) -> Option<(Seq<(Seq<char>, Json)>, Seq<char>)>
    decreases t.len(), 1nat,
{
    if t.len() == 0 || t[0] != '"' {
        None
    } else {
        match string_end(t.skip(1)) {
            None => None,
            Some((key, behind)) => {
                let u = unblanked(behind);
                if u.len() == 0 || u[0] != ':' {
                    None
                } else {
                    let v = unblanked(u.skip(1));
                    if v.len() >= t.len() {
                        None
                    } else {
                        match value(v) {
                            None => None,
                            Some((first, after)) => {
                                let w = unblanked(after);
                                if w.len() == 0 || w.len() >= t.len() {
                                    None
                                } else if w[0] == '}' {
                                    Some((seq![(key, first)], w.skip(1)))
                                } else if w[0] == ',' {
                                    let x = unblanked(w.skip(1));
                                    if x.len() >= t.len() {
                                        None
                                    } else {
                                        match members(x) {
                                            Some((others, rest)) => Some(
                                                (seq![(key, first)] + others, rest),
                                            ),
                                            None => None,
                                        }
                                    }
                                } else {
                                    None
                                }
                            },
                        }
                    }
                }
            },
        }
    }
}

/// What a JSON text stands for: a single value, with white space around it.
pub open spec fn document(t: Seq<char>) -> Option<Json> {
    match value(unblanked(t)) {
        Some((j, rest)) => if unblanked(rest).len() == 0 {
            Some(j)
        } else {
            None
        },
        None => None,
    }
}

// ---------------------------------------------------------------------------
// Reading what is written
// ---------------------------------------------------------------------------
/// Can `rest` stand behind a value?
pub open spec fn is_end(rest: Seq<char>) -> bool {
    rest.len() == 0 || is_blank(rest[0]) || rest[0] == ',' || rest[0] == ']' || rest[0] == '}'
}

/// Is `s` the value `j`, whatever stands behind it?
pub open spec fn is_value(s: Seq<char>, j: Json) -> bool {
    &&& s.len() > 0
    &&& !is_blank(s[0])
    &&& s[0] != ']'
    &&& forall|rest: Seq<char>| is_end(rest) ==> #[trigger] value(s + rest) == Some((j, rest))
}

/// Is `s` all white space?
pub open spec fn all_blank(s: Seq<char>) -> bool {
    forall|i: int| 0 <= i < s.len() ==> is_blank(#[trigger] s[i])
}

/// Does `s` stand in a string as it is?
pub open spec fn is_plain(s: Seq<char>) -> bool {
    forall|i: int| 0 <= i < s.len() ==> #[trigger] s[i] >= ' ' && s[i] != '"' && s[i] != '\\'
}

pub proof fn lemma_assoc()
    ensures
        forall|a: Seq<char>, b: Seq<char>, c: Seq<char>| #[trigger] ((a + b) + c) == a + (b + c),
{
    assert forall|a: Seq<char>, b: Seq<char>, c: Seq<char>| #[trigger] ((a + b) + c) == a + (b
        + c) by {
        assert((a + b) + c =~= a + (b + c));
    }
}

/// White space at the start is skipped.
pub proof fn lemma_unblanked(w: Seq<char>, t: Seq<char>)
    requires
        all_blank(w),
        t.len() == 0 || !is_blank(t[0]),
    ensures
        unblanked(w + t) == t,
    decreases w.len(),
{
    if w.len() == 0 {
        assert(w + t == t);
    } else {
        let u = w.skip(1);
        assert forall|i: int| 0 <= i < u.len() implies is_blank(#[trigger] u[i]) by {
            assert(u[i] == w[i + 1]);
        }
        assert((w + t)[0] == w[0]);
        assert((w + t).skip(1) == u + t);
        lemma_unblanked(u, t);
    }
}

/// A plain text ends at the quote behind it.
pub proof fn lemma_plain(s: Seq<char>, rest: Seq<char>)
    requires
        is_plain(s),
    ensures
        string_end(s + "\""@ + rest) == Some((s, rest)),
    decreases s.len(),
{
    reveal_strlit("\"");
    let t = s + "\""@ + rest;
    if s.len() == 0 {
        assert(t[0] == '"');
        assert(t.skip(1) == rest);
        assert(s == Seq::<char>::empty());
    } else {
        let u = s.skip(1);
        assert forall|i: int| 0 <= i < u.len() implies #[trigger] u[i] >= ' ' && u[i] != '"'
            && u[i] != '\\' by {
            assert(u[i] == s[i + 1]);
        }
        lemma_plain(u, rest);
        assert(t[0] == s[0]);
        assert(t.skip(1) == u + "\""@ + rest);
        assert(seq![s[0]] + u == s);
    }
}

/// A string whose inside is read to its end is a value.
pub proof fn lemma_string(inside: Seq<char>, s: Seq<char>)
    requires
        forall|rest: Seq<char>| #[trigger]
            string_end(inside + "\""@ + rest) == Some((s, rest)),
    ensures
        is_value("\""@ + inside + "\""@, Json::Text(s)),
{
    reveal_strlit("\"");
    let text = "\""@ + inside + "\""@;
    assert forall|rest: Seq<char>| is_end(rest) implies #[trigger] value(text + rest) == Some(
        (Json::Text(s), rest),
    ) by {
        assert((text + rest)[0] == '"');
        assert((text + rest).skip(1) == inside + "\""@ + rest);
        assert(string_end(inside + "\""@ + rest) == Some((s, rest)));
    }
}

/// The words of JSON are values.
pub proof fn lemma_words()
    ensures
        is_value("null"@, Json::Null),
        is_value("true"@, Json::Bool(true)),
        is_value("false"@, Json::Bool(false)),
{
    reveal_strlit("null");
    reveal_strlit("true");
    reveal_strlit("false");
    assert forall|rest: Seq<char>| is_end(rest) implies #[trigger] value("null"@ + rest) == Some(
        (Json::Null, rest),
    ) by {
        let t = "null"@ + rest;
        assert(t[0] == 'n');
        assert(t.take(4) == "null"@);
        assert(t.skip(4) == rest);
    }
    assert forall|rest: Seq<char>| is_end(rest) implies #[trigger] value("true"@ + rest) == Some(
        (Json::Bool(true), rest),
    ) by {
        let t = "true"@ + rest;
        assert(t[0] == 't');
        assert(t.take(4)[0] != "null"@[0]);
        assert(t.take(4) == "true"@);
        assert(t.skip(4) == rest);
    }
    assert forall|rest: Seq<char>| is_end(rest) implies #[trigger] value("false"@ + rest) == Some(
        (Json::Bool(false), rest),
    ) by {
        let t = "false"@ + rest;
        assert(t[0] == 'f');
        assert(t.take(4)[0] != "null"@[0] && t.take(4)[0] != "true"@[0]);
        assert(t.take(5) == "false"@);
        assert(t.skip(5) == rest);
    }
}

proof fn lemma_digits(s: Seq<char>, rest: Seq<char>)
    requires
        forall|i: int| 0 <= i < s.len() ==> '0' <= #[trigger] s[i] <= '9',
        is_end(rest),
    ensures
        digits(s + rest) == s.len(),
    decreases s.len(),
{
    if s.len() == 0 {
        assert(s + rest == rest);
    } else {
        let u = s.skip(1);
        assert forall|i: int| 0 <= i < u.len() implies '0' <= #[trigger] u[i] <= '9' by {
            assert(u[i] == s[i + 1]);
        }
        lemma_digits(u, rest);
        assert((s + rest)[0] == s[0]);
        assert((s + rest).skip(1) == u + rest);
    }
}

/// Digits without a zero in front are a value.
pub proof fn lemma_number(s: Seq<char>)
    requires
        s.len() > 0,
        forall|i: int| 0 <= i < s.len() ==> '0' <= #[trigger] s[i] <= '9',
        s.len() > 1 ==> s[0] != '0',
    ensures
        is_value(s, Json::Number(number(s, 0))),
{
    reveal_strlit("null");
    reveal_strlit("true");
    reveal_strlit("false");
    assert('0' <= s[0] <= '9');
    assert forall|rest: Seq<char>| is_end(rest) implies #[trigger] value(s + rest) == Some(
        (Json::Number(number(s, 0)), rest),
    ) by {
        let t = s + rest;
        lemma_digits(s, rest);
        assert(t[0] == s[0]);
        assert(has_word(t, "null"@) ==> t.take(4)[0] == 'n');
        assert(has_word(t, "true"@) ==> t.take(4)[0] == 't');
        assert(has_word(t, "false"@) ==> t.take(5)[0] == 'f');
        assert(t.take(s.len() as int) == s);
        assert(t.skip(s.len() as int) == rest);
    }
}

/// The last element of a list.
pub proof fn lemma_last_element(s: Seq<char>, j: Json, w: Seq<char>, rest: Seq<char>)
    requires
        is_value(s, j),
        all_blank(w),
    ensures
        elements(s + (w + ("]"@ + rest))) == Some((seq![j], rest)),
{
    reveal_strlit("]");
    let end = "]"@ + rest;
    let behind = w + end;
    let t = s + behind;
    lemma_unblanked(w, end);
    assert(behind[0] == if w.len() > 0 {
        w[0]
    } else {
        ']'
    });
    assert(value(t) == Some((j, behind)));
    assert(end.skip(1) == rest);
}

/// An element with more behind it.
pub proof fn lemma_more_elements(
    s: Seq<char>,
    j: Json,
    w: Seq<char>,
    t: Seq<char>,
    others: Seq<Json>,
    rest: Seq<char>,
)
    requires
        is_value(s, j),
        all_blank(w),
        t.len() > 0,
        !is_blank(t[0]),
        elements(t) == Some((others, rest)),
    ensures
        elements(s + (","@ + (w + t))) == Some((seq![j] + others, rest)),
{
    reveal_strlit(",");
    let behind = ","@ + (w + t);
    let all = s + behind;
    assert(behind[0] == ',');
    assert(value(all) == Some((j, behind)));
    lemma_unblanked(Seq::<char>::empty(), behind);
    assert(Seq::<char>::empty() + behind == behind);
    assert(behind.skip(1) == w + t);
    lemma_unblanked(w, t);
}

/// A list with elements.
pub proof fn lemma_list(w: Seq<char>, t: Seq<char>, items: Seq<Json>, rest: Seq<char>)
    requires
        all_blank(w),
        t.len() > 0,
        !is_blank(t[0]),
        t[0] != ']',
        elements(t) == Some((items, rest)),
    ensures
        value("["@ + (w + t)) == Some((Json::List(items), rest)),
{
    reveal_strlit("[");
    let all = "["@ + (w + t);
    assert(all[0] == '[');
    assert(all.skip(1) == w + t);
    lemma_unblanked(w, t);
}

/// A list without elements.
pub proof fn lemma_empty_list(w: Seq<char>, rest: Seq<char>)
    requires
        all_blank(w),
    ensures
        value("["@ + (w + ("]"@ + rest))) == Some((Json::List(seq![]), rest)),
{
    reveal_strlit("[");
    reveal_strlit("]");
    let end = "]"@ + rest;
    let all = "["@ + (w + end);
    assert(all[0] == '[');
    assert(all.skip(1) == w + end);
    lemma_unblanked(w, end);
    assert(end.skip(1) == rest);
}

/// The key of a member.
proof fn lemma_key(key: Seq<char>, s: Seq<char>)
    requires
        is_plain(key),
        s.len() > 0,
        !is_blank(s[0]),
    ensures
        ({
            let t = "\""@ + (key + ("\": "@ + s));
            &&& t[0] == '"'
            &&& string_end(t.skip(1)) == Some((key, ": "@ + s))
            &&& unblanked(": "@ + s) == ": "@ + s
            &&& (": "@ + s)[0] == ':'
            &&& unblanked((": "@ + s).skip(1)) == s
        }),
{
    reveal_strlit("\"");
    reveal_strlit("\": ");
    reveal_strlit(": ");
    reveal_strlit(" ");
    let t = "\""@ + (key + ("\": "@ + s));
    let behind = ": "@ + s;
    lemma_plain(key, behind);
    assert(t.skip(1) == key + "\""@ + behind);
    lemma_unblanked(Seq::<char>::empty(), behind);
    assert(Seq::<char>::empty() + behind == behind);
    assert(behind.skip(1) == " "@ + s);
    assert(all_blank(" "@));
    lemma_unblanked(" "@, s);
}

/// The last member of an object, with its value read.
pub proof fn lemma_last_member(
    key: Seq<char>,
    s: Seq<char>,
    j: Json,
    w: Seq<char>,
    rest: Seq<char>,
)
    requires
        is_plain(key),
        s.len() > 0,
        !is_blank(s[0]),
        value(s) == Some((j, w + ("}"@ + rest))),
        s.len() > w.len() + rest.len(),
        all_blank(w),
    ensures
        members("\""@ + (key + ("\": "@ + s))) == Some((seq![(key, j)], rest)),
{
    reveal_strlit("}");
    lemma_key(key, s);
    let end = "}"@ + rest;
    lemma_unblanked(w, end);
    reveal_strlit("\"");
    reveal_strlit("\": ");
    assert(end.skip(1) == rest);
}

/// A member with more behind it, with its value read.
pub proof fn lemma_more_members(
    key: Seq<char>,
    s: Seq<char>,
    j: Json,
    w: Seq<char>,
    t: Seq<char>,
    others: Seq<(Seq<char>, Json)>,
    rest: Seq<char>,
)
    requires
        is_plain(key),
        s.len() > 0,
        !is_blank(s[0]),
        value(s) == Some((j, ","@ + (w + t))),
        s.len() > w.len() + t.len(),
        all_blank(w),
        t.len() > 0,
        !is_blank(t[0]),
        members(t) == Some((others, rest)),
    ensures
        members("\""@ + (key + ("\": "@ + s))) == Some((seq![(key, j)] + others, rest)),
{
    reveal_strlit(",");
    lemma_key(key, s);
    let behind = ","@ + (w + t);
    lemma_unblanked(Seq::<char>::empty(), behind);
    assert(Seq::<char>::empty() + behind == behind);
    assert(behind.skip(1) == w + t);
    lemma_unblanked(w, t);
    reveal_strlit("\"");
    reveal_strlit("\": ");
}

/// An object with members.
pub proof fn lemma_object(
    w: Seq<char>,
    t: Seq<char>,
    fields: Seq<(Seq<char>, Json)>,
    rest: Seq<char>,
)
    requires
        all_blank(w),
        t.len() > 0,
        t[0] == '"',
        members(t) == Some((fields, rest)),
    ensures
        value("{"@ + (w + t)) == Some((Json::Object(fields), rest)),
{
    reveal_strlit("{");
    let all = "{"@ + (w + t);
    assert(all[0] == '{');
    assert(all.skip(1) == w + t);
    lemma_unblanked(w, t);
}

} // verus!
