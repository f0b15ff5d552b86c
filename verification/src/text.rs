//! Small helpers on text and bytes: conversion between strings and characters,
//! comparison, copying, capitals, trimming and searching.

use vstd::prelude::*;
use vstd::string::{StringExecFns, StringSliceAdditionalSpecFns, StrSliceExecFns};
use vstd::utf8::{encode_scalar, encode_utf8, encode_utf8_decode_utf8, is_scalar};

verus! {

/// `String::push` appends the character.
pub assume_specification[ String::push ](s: &mut String, c: char)
    ensures
        final(s)@ == old(s)@.push(c),
;

/// `char::from_u32` yields the character with that code point, and `None` where
/// there is none: for surrogates and above U+10FFFF.
pub assume_specification[ char::from_u32 ](i: u32) -> (r: Option<char>)
    ensures
        is_scalar(i) ==> r == Some(i as char),
        !is_scalar(i) ==> r is None,
;

/// The character with that code point.
pub fn char_of(cp: u32) -> (r: char)
    requires
        is_scalar(cp),
    ensures
        r == cp as char,
{
    char::from_u32(cp).unwrap()
}

/// The characters of a string.
pub fn chars_of(s: &str) -> (r: Vec<char>)
    ensures
        r@ == s@,
{
    let mut out: Vec<char> = Vec::new();
    for c in it: s.chars()
        invariant
            it.seq() == s@,
            out@ == s@.take(it.index()),
    {
        out.push(c);
        assert(s@.take(it.index() + 1) == s@.take(it.index()).push(c));
    }
    assert(s@.take(s@.len() as int) == s@);
    out
}

/// The string made of `chars`.
pub fn string_of(chars: &[char]) -> (r: String)
    ensures
        r@ == chars@,
{
    let mut out = String::new();
    let mut i: usize = 0;
    while i < chars.len()
        invariant
            i <= chars@.len(),
            out@ == chars@.take(i as int),
        decreases chars@.len() - i,
    {
        out.push(chars[i]);
        assert(chars@.take(i + 1) == chars@.take(i as int).push(chars@[i as int]));
        i = i + 1;
    }
    assert(chars@.take(chars@.len() as int) == chars@);
    out
}

/// Are two byte strings the same?
pub fn same_bytes(a: &[u8], b: &[u8]) -> (r: bool)
    ensures
        r == (a@ == b@),
{
    if a.len() != b.len() {
        return false;
    }
    let mut i: usize = 0;
    while i < a.len()
        invariant
            i <= a@.len(),
            a@.len() == b@.len(),
            a@.take(i as int) == b@.take(i as int),
        decreases a@.len() - i,
    {
        if a[i] != b[i] {
            return false;
        }
        assert(a@.take(i + 1) == a@.take(i as int).push(a@[i as int]));
        assert(b@.take(i + 1) == b@.take(i as int).push(b@[i as int]));
        i = i + 1;
    }
    assert(a@.take(a@.len() as int) == a@);
    assert(b@.take(b@.len() as int) == b@);
    true
}

/// A copy of a byte string.
pub fn copy_bytes(bytes: &[u8]) -> (r: Vec<u8>)
    ensures
        r@ == bytes@,
{
    let mut out: Vec<u8> = Vec::new();
    let mut i: usize = 0;
    while i < bytes.len()
        invariant
            i <= bytes@.len(),
            out@ == bytes@.take(i as int),
        decreases bytes@.len() - i,
    {
        out.push(bytes[i]);
        assert(bytes@.take(i + 1) == bytes@.take(i as int).push(bytes@[i as int]));
        i = i + 1;
    }
    assert(bytes@.take(bytes@.len() as int) == bytes@);
    out
}

/// Do two strings hold the same text?
pub fn same_text(a: &str, b: &str) -> (r: bool)
    ensures
        r == (a@ == b@),
{
    proof {
        encode_utf8_decode_utf8(a@);
        encode_utf8_decode_utf8(b@);
    }
    same_bytes(a.as_bytes(), b.as_bytes())
}

// ---------------------------------------------------------------------------
// Lengths
// ---------------------------------------------------------------------------
/// How many bytes `c` takes in UTF-8.
pub open spec fn utf8_width(c: char) -> nat {
    if c <= '\u{7F}' {
        1
    } else if c <= '\u{7FF}' {
        2
    } else if c <= '\u{FFFF}' {
        3
    } else {
        4
    }
}

/// How many bytes `s` takes in UTF-8.
pub open spec fn utf8_len(s: Seq<char>) -> nat
    decreases s.len(),
{
    if s.len() == 0 {
        0
    } else {
        utf8_len(s.drop_last()) + utf8_width(s.last())
    }
}

pub proof fn lemma_encode_concat(a: Seq<char>, b: Seq<char>)
    ensures
        encode_utf8(a + b) == encode_utf8(a) + encode_utf8(b),
    decreases a.len(),
{
    if a.len() == 0 {
        assert(a + b == b);
    } else {
        assert((a + b).drop_first() == a.drop_first() + b);
        lemma_encode_concat(a.drop_first(), b);
        assert(encode_utf8(a + b) == encode_utf8(a) + encode_utf8(b));
    }
}

proof fn lemma_scalar_width(c: char)
    ensures
        encode_scalar(c as u32).len() == utf8_width(c),
{
}

pub proof fn lemma_utf8_len(s: Seq<char>)
    ensures
        encode_utf8(s).len() == utf8_len(s),
    decreases s.len(),
{
    if s.len() > 0 {
        let u = s.drop_last();
        let one = seq![s.last()];
        assert(s == u + one);
        lemma_encode_concat(u, one);
        assert(one.drop_first() == Seq::<char>::empty());
        assert(encode_utf8(one) == encode_scalar(s.last() as u32) + encode_utf8(one.drop_first()));
        lemma_scalar_width(s.last());
        lemma_utf8_len(u);
    }
}

pub proof fn lemma_utf8_len_concat(a: Seq<char>, b: Seq<char>)
    ensures
        utf8_len(a + b) == utf8_len(a) + utf8_len(b),
    decreases b.len(),
{
    if b.len() == 0 {
        assert(a + b == a);
    } else {
        assert((a + b).drop_last() == a + b.drop_last());
        lemma_utf8_len_concat(a, b.drop_last());
    }
}

/// The length of a string in UTF-8 bytes.
pub fn byte_len(s: &str) -> (r: usize)
    ensures
        r == utf8_len(s@),
{
    proof {
        lemma_utf8_len(s@);
    }
    s.as_bytes().len()
}

// ---------------------------------------------------------------------------
// ASCII letter case
// ---------------------------------------------------------------------------
/// The capital of an ASCII letter; any other character is its own.
pub open spec fn upper(c: char) -> char {
    if 'a' <= c <= 'z' {
        (c as int - 32) as char
    } else {
        c
    }
}

/// `s` with its ASCII letters in capitals.
pub open spec fn upper_all(s: Seq<char>) -> Seq<char> {
    s.map_values(|c: char| upper(c))
}

/// The string with its ASCII letters in capitals.
pub fn to_upper(s: &str) -> (r: String)
    ensures
        r@ == upper_all(s@),
{
    let mut out = String::new();
    for c in it: s.chars()
        invariant
            it.seq() == s@,
            out@ == upper_all(s@.take(it.index())),
    {
        let up: char = if 'a' <= c && c <= 'z' {
            (c as u8 - 32) as char
        } else {
            c
        };
        out.push(up);
        assert(upper_all(s@.take(it.index() + 1)) == upper_all(s@.take(it.index())).push(upper(c)));
    }
    assert(s@.take(s@.len() as int) == s@);
    out
}

/// Do two strings hold the same text, but for the case of ASCII letters?
pub fn same_text_ignoring_case(a: &str, b: &str) -> (r: bool)
    ensures
        r == (upper_all(a@) == upper_all(b@)),
{
    same_text(&to_upper(a), &to_upper(b))
}

// ---------------------------------------------------------------------------
// Parts of a text
// ---------------------------------------------------------------------------
/// Is `c` a character that Windows strips from the end of a name?
pub open spec fn is_stripped(c: char) -> bool {
    c == ' ' || c == '.'
}

/// `s` without the spaces and dots at its end.
pub open spec fn trim_end(s: Seq<char>) -> Seq<char>
    decreases s.len(),
{
    if s.len() > 0 && is_stripped(s.last()) {
        trim_end(s.drop_last())
    } else {
        s
    }
}

/// `s` without the spaces at its start.
pub open spec fn trim_start(s: Seq<char>) -> Seq<char>
    decreases s.len(),
{
    if s.len() > 0 && s[0] == ' ' {
        trim_start(s.skip(1))
    } else {
        s
    }
}

/// Where the first dot of `s` stands: at its end if there is none.
pub open spec fn first_dot(s: Seq<char>) -> int
    decreases s.len(),
{
    if s.len() == 0 || s[0] == '.' {
        0
    } else {
        1 + first_dot(s.skip(1))
    }
}

/// Where the last dot of `s` stands: before its start if there is none.
pub open spec fn last_dot(s: Seq<char>) -> int
    decreases s.len(),
{
    if s.len() == 0 {
        -1
    } else if s.last() == '.' {
        s.len() - 1
    } else {
        last_dot(s.drop_last())
    }
}

/// What is left after trimming is a prefix that ends in neither a space nor a
/// dot.
pub proof fn lemma_trim_end(s: Seq<char>)
    ensures
        trim_end(s).len() <= s.len(),
        trim_end(s) == s.take(trim_end(s).len() as int),
        trim_end(s).len() > 0 ==> !is_stripped(trim_end(s).last()),
        forall|i: int| trim_end(s).len() <= i < s.len() ==> is_stripped(#[trigger] s[i]),
    decreases s.len(),
{
    if s.len() > 0 && is_stripped(s.last()) {
        let u = s.drop_last();
        lemma_trim_end(u);
        assert(u.take(trim_end(u).len() as int) == s.take(trim_end(u).len() as int));
        assert forall|i: int| trim_end(s).len() <= i < s.len() implies is_stripped(
            #[trigger] s[i],
        ) by {
            if i < u.len() {
                assert(u[i] == s[i]);
            }
        }
    } else {
        assert(s.take(s.len() as int) == s);
    }
}

/// What is left after trimming is a suffix that does not begin with a space.
pub proof fn lemma_trim_start(s: Seq<char>)
    ensures
        trim_start(s).len() <= s.len(),
        trim_start(s) == s.skip(s.len() - trim_start(s).len()),
        trim_start(s).len() > 0 ==> trim_start(s)[0] != ' ',
        forall|i: int| 0 <= i < s.len() - trim_start(s).len() ==> #[trigger] s[i] == ' ',
    decreases s.len(),
{
    if s.len() > 0 && s[0] == ' ' {
        let u = s.skip(1);
        lemma_trim_start(u);
        assert(u.skip(u.len() - trim_start(u).len()) == s.skip(s.len() - trim_start(u).len()));
        assert forall|i: int| 0 <= i < s.len() - trim_start(s).len() implies #[trigger] s[i]
            == ' ' by {
            if i > 0 {
                assert(u[i - 1] == s[i]);
            }
        }
    } else {
        assert(s.skip(0) == s);
    }
}

pub proof fn lemma_first_dot(s: Seq<char>)
    ensures
        0 <= first_dot(s) <= s.len(),
        forall|i: int| 0 <= i < first_dot(s) ==> #[trigger] s[i] != '.',
        first_dot(s) < s.len() ==> s[first_dot(s)] == '.',
    decreases s.len(),
{
    if s.len() > 0 && s[0] != '.' {
        let u = s.skip(1);
        lemma_first_dot(u);
        assert forall|i: int| 0 <= i < first_dot(s) implies #[trigger] s[i] != '.' by {
            if i > 0 {
                assert(u[i - 1] == s[i]);
            }
        }
        if first_dot(s) < s.len() {
            assert(u[first_dot(u)] == s[first_dot(s)]);
        }
    }
}

/// The first dot stands where no dot stands before it.
pub proof fn lemma_first_dot_at(s: Seq<char>, k: int)
    requires
        0 <= k <= s.len(),
        forall|i: int| 0 <= i < k ==> #[trigger] s[i] != '.',
        k < s.len() ==> s[k] == '.',
    ensures
        first_dot(s) == k,
{
    lemma_first_dot(s);
}

pub proof fn lemma_last_dot(s: Seq<char>)
    ensures
        -1 <= last_dot(s) < s.len(),
        forall|i: int| last_dot(s) < i < s.len() ==> #[trigger] s[i] != '.',
        last_dot(s) >= 0 ==> s[last_dot(s)] == '.',
    decreases s.len(),
{
    if s.len() > 0 && s.last() != '.' {
        let u = s.drop_last();
        lemma_last_dot(u);
        assert forall|i: int| last_dot(s) < i < s.len() implies #[trigger] s[i] != '.' by {
            if i < u.len() {
                assert(u[i] == s[i]);
            }
        }
    }
}

/// The string without the spaces and dots at its end.
pub fn trimmed_end<'a>(s: &'a str) -> (r: &'a str)
    ensures
        r@ == trim_end(s@),
{
    let chars: Vec<char> = chars_of(s);
    let mut n: usize = chars.len();
    assert(s@.take(n as int) == s@);
    while n > 0 && (chars[n - 1] == ' ' || chars[n - 1] == '.')
        invariant
            n <= chars@.len(),
            chars@ == s@,
            trim_end(s@) == trim_end(s@.take(n as int)),
        decreases n,
    {
        assert(s@.take(n as int).drop_last() == s@.take(n - 1));
        n = n - 1;
    }
    assert(s@.take(n as int) == s@.subrange(0, n as int));
    s.substring_char(0, n)
}

/// The string without the spaces at its start.
pub fn trimmed_start<'a>(s: &'a str) -> (r: &'a str)
    ensures
        r@ == trim_start(s@),
{
    let chars: Vec<char> = chars_of(s);
    let mut n: usize = 0;
    assert(s@.skip(0) == s@);
    while n < chars.len() && chars[n] == ' '
        invariant
            n <= chars@.len(),
            chars@ == s@,
            trim_start(s@) == trim_start(s@.skip(n as int)),
        decreases chars@.len() - n,
    {
        assert(s@.skip(n as int).skip(1) == s@.skip(n + 1));
        n = n + 1;
    }
    assert(s@.skip(n as int) == s@.subrange(n as int, s@.len() as int));
    s.substring_char(n, chars.len())
}

/// Where the first dot stands.
pub fn find_first_dot(chars: &[char]) -> (r: usize)
    ensures
        r == first_dot(chars@),
{
    let mut n: usize = 0;
    while n < chars.len() && chars[n] != '.'
        invariant
            n <= chars@.len(),
            forall|i: int| 0 <= i < n ==> #[trigger] chars@[i] != '.',
        decreases chars@.len() - n,
    {
        n = n + 1;
    }
    proof {
        lemma_first_dot_at(chars@, n as int);
    }
    n
}

/// Does `s` begin with `prefix`?
pub open spec fn begins(s: Seq<char>, prefix: Seq<char>) -> bool {
    prefix.len() <= s.len() && s.take(prefix.len() as int) == prefix
}

/// Does `part` occur in `s`?
pub open spec fn occurs(part: Seq<char>, s: Seq<char>) -> bool {
    exists|k: int| 0 <= k <= s.len() && #[trigger] begins(s.skip(k), part)
}

/// Does `s` begin with `prefix` at `at`?
fn has_at(s: &[char], at: usize, part: &[char]) -> (r: bool)
    requires
        at <= s@.len(),
    ensures
        r == begins(s@.skip(at as int), part@),
{
    let n: usize = s.len();
    if part.len() > n - at {
        return false;
    }
    let ghost rest = s@.skip(at as int);
    let mut i: usize = 0;
    while i < part.len()
        invariant
            i <= part@.len(),
            at + part@.len() <= n == s@.len(),
            rest == s@.skip(at as int),
            rest.take(i as int) == part@.take(i as int),
        decreases part@.len() - i,
    {
        if s[at + i] != part[i] {
            assert(rest[i as int] != part@[i as int]);
            assert(rest.take(part@.len() as int)[i as int] == rest[i as int]);
            return false;
        }
        assert(rest.take(i + 1) == rest.take(i as int).push(rest[i as int]));
        assert(part@.take(i + 1) == part@.take(i as int).push(part@[i as int]));
        i = i + 1;
    }
    assert(part@.take(part@.len() as int) == part@);
    true
}

/// Does the string begin with `prefix`?
pub fn starts_with(s: &str, prefix: &str) -> (r: bool)
    ensures
        r == begins(s@, prefix@),
{
    let chars: Vec<char> = chars_of(s);
    let part: Vec<char> = chars_of(prefix);
    assert(chars@.skip(0) == s@);
    has_at(&chars, 0, &part)
}

/// Does `part` occur in the string?
pub fn contains_text(s: &str, part: &str) -> (r: bool)
    ensures
        r == occurs(part@, s@),
{
    let chars: Vec<char> = chars_of(s);
    let wanted: Vec<char> = chars_of(part);
    let mut k: usize = 0;
    loop
        invariant
            k <= chars@.len(),
            chars@ == s@,
            wanted@ == part@,
            forall|j: int| 0 <= j < k ==> !#[trigger] begins(s@.skip(j), part@),
        decreases chars@.len() - k,
    {
        if has_at(&chars, k, &wanted) {
            return true;
        }
        if k == chars.len() {
            return false;
        }
        k = k + 1;
    }
}

/// A copy of a range of bytes.
pub fn copy_range(bytes: &[u8], from: usize, to: usize) -> (r: Vec<u8>)
    requires
        from <= to <= bytes@.len(),
    ensures
        r@ == bytes@.subrange(from as int, to as int),
{
    let mut out: Vec<u8> = Vec::new();
    let mut i: usize = from;
    while i < to
        invariant
            from <= i <= to <= bytes@.len(),
            out@ == bytes@.subrange(from as int, i as int),
        decreases to - i,
    {
        out.push(bytes[i]);
        assert(bytes@.subrange(from as int, i + 1) == bytes@.subrange(from as int, i as int).push(
            bytes@[i as int],
        ));
        i = i + 1;
    }
    out
}

/// Three texts, one behind the other.
pub fn joined_text(a: &str, b: &str, c: &str) -> (r: String)
    ensures
        r@ == a@ + b@ + c@,
{
    let mut out: String = a.to_owned();
    out.append(b);
    out.append(c);
    out
}

} // verus!
