//! Canonical Unicode normalization (NFC and NFD) and case-insensitive keys.

use vstd::prelude::*;
use vstd::string::StringExecFns;

use crate::text::{byte_len, char_of, lemma_utf8_len_concat, same_text, string_of, utf8_len};
use crate::unicode_compose::{ccc, composite, find_class, find_composite, has_composite};
use crate::unicode_decomp::{find_mapping, has_mapping, lemma_mapping, mapping};
use crate::unicode_laws::law_ascii_is_nfc;
use crate::unicode_rows::{
    is_syllable, weight, L_BASE, L_COUNT, N_COUNT, S_BASE, S_COUNT, T_BASE, T_COUNT, V_BASE,
    V_COUNT,
};

verus! {

// ---------------------------------------------------------------------------
// Decomposition
// ---------------------------------------------------------------------------
/// The conjoining jamo of a Hangul syllable: a leading consonant, a vowel and,
/// unless the syllable is open, a trailing consonant.
pub open spec fn jamo(c: char) -> Seq<char> {
    let s = c as int - S_BASE;
    let l = (L_BASE + s / N_COUNT as int) as char;
    let v = (V_BASE + (s % N_COUNT as int) / T_COUNT as int) as char;
    let t = (T_BASE + s % T_COUNT as int) as char;
    if s % T_COUNT as int == 0 {
        seq![l, v]
    } else {
        seq![l, v, t]
    }
}

/// A bound on how far `c` still decomposes.
pub open spec fn reduction(c: char) -> int {
    if has_mapping(c) {
        weight(c) + 1
    } else {
        0
    }
}

proof fn lemma_weight(c: char)
    ensures
        0 <= weight(c),
{
}

/// A canonical mapping brings the bound down.
pub proof fn lemma_reduction(c: char)
    requires
        has_mapping(c),
    ensures
        0 <= reduction(mapping(c).0) < reduction(c),
{
    lemma_mapping(c);
    lemma_weight(c);
    lemma_weight(mapping(c).0);
}

/// The full canonical decomposition of `c`: a Hangul syllable into its jamo, a
/// character with a canonical mapping into what the mapping gives, its first
/// character decomposed further, and any other character into itself. (The
/// second character of a mapping never has a mapping of its own.)
pub open spec fn decompose(c: char) -> Seq<char>
    decreases reduction(c),
{
    if is_syllable(c) {
        jamo(c)
    } else if has_mapping(c) {
        proof {
            lemma_reduction(c);
        }
        let (a, b) = mapping(c);
        if b == '\0' {
            decompose(a)
        } else {
            decompose(a).push(b)
        }
    } else {
        seq![c]
    }
}

/// The decompositions of the characters of `s`, one after the other.
pub open spec fn decompose_all(s: Seq<char>) -> Seq<char>
    decreases s.len(),
{
    if s.len() == 0 {
        seq![]
    } else {
        decompose_all(s.drop_last()) + decompose(s.last())
    }
}

/// Appends the canonical decomposition of `c` to `out`.
fn decompose_char(c: char, out: &mut Vec<char>)
    ensures
        final(out)@ == old(out)@ + decompose(c),
    decreases reduction(c),
{
    let cp: u32 = c as u32;
    if S_BASE <= cp && cp < S_BASE + S_COUNT {
        let s: u32 = cp - S_BASE;
        out.push(char_of(L_BASE + s / N_COUNT));
        out.push(char_of(V_BASE + (s % N_COUNT) / T_COUNT));
        if s % T_COUNT != 0 {
            out.push(char_of(T_BASE + s % T_COUNT));
        }
        assert(out@ =~= old(out)@ + jamo(c));
        return;
    }
    if let Some((a, b)) = find_mapping(c) {
        proof {
            lemma_reduction(c);
            lemma_mapping(c);
        }
        decompose_char(a, out);
        if b != '\0' {
            out.push(b);
        }
        assert(out@ =~= old(out)@ + decompose(c));
        return;
    }
    out.push(c);
    assert(out@ =~= old(out)@ + decompose(c));
}

// ---------------------------------------------------------------------------
// Canonical ordering
// ---------------------------------------------------------------------------
/// `t` with `c` put in: at the end, or before the marks at the end of `t` whose
/// combining class is greater, if `c` is a mark itself.
pub open spec fn insert_mark(t: Seq<char>, c: char) -> Seq<char>
    decreases t.len(),
{
    if ccc(c) != 0 && t.len() > 0 && ccc(t.last()) > ccc(c) {
        insert_mark(t.drop_last(), c).push(t.last())
    } else {
        t.push(c)
    }
}

/// The canonical ordering of `s`: each run of marks sorted by combining class,
/// marks of one class in the order they came in.
pub open spec fn reorder(s: Seq<char>) -> Seq<char>
    decreases s.len(),
{
    if s.len() == 0 {
        seq![]
    } else {
        insert_mark(reorder(s.drop_last()), s.last())
    }
}

/// Putting `c` in passes over a tail of marks of greater class.
proof fn lemma_insert_passes(t: Seq<char>, tail: Seq<char>, c: char)
    requires
        ccc(c) != 0,
        forall|i: int| 0 <= i < tail.len() ==> ccc(#[trigger] tail[i]) > ccc(c),
    ensures
        insert_mark(t + tail, c) == insert_mark(t, c) + tail,
    decreases tail.len(),
{
    if tail.len() == 0 {
        assert(t + tail == t);
        assert(insert_mark(t, c) + tail == insert_mark(t, c));
    } else {
        let all = t + tail;
        assert(all.last() == tail.last());
        assert(all.drop_last() == t + tail.drop_last());
        lemma_insert_passes(t, tail.drop_last(), c);
        assert(insert_mark(t, c) + tail == (insert_mark(t, c) + tail.drop_last()).push(
            tail.last(),
        ));
    }
}

/// Puts `chars` into canonical order.
fn canonical_reorder(chars: &mut Vec<char>)
    ensures
        final(chars)@ == reorder(old(chars)@),
{
    let n: usize = chars.len();
    let mut i: usize = 0;
    assert(chars@.take(0) == reorder(old(chars)@.take(0)));
    while i < n
        invariant
            i <= n,
            n == chars@.len(),
            n == old(chars)@.len(),
            chars@.take(i as int) == reorder(old(chars)@.take(i as int)),
            chars@.skip(i as int) == old(chars)@.skip(i as int),
        decreases n - i,
    {
        let c: char = chars[i];
        let ghost done = chars@.take(i as int);
        let ghost rest = chars@.skip(i + 1);
        assert(c == old(chars)@[i as int]) by {
            assert(c == chars@.skip(i as int)[0]);
        }
        let class: u8 = find_class(c);
        let mut j: usize = i;
        if class != 0 {
            while j > 0 && find_class(chars[j - 1]) > class
                invariant
                    j <= i < n,
                    n == chars@.len(),
                    done.len() == i,
                    class == ccc(c),
                    chars@ == done.take(j as int).push(c) + done.skip(j as int) + rest,
                    forall|k: int| j <= k < i ==> ccc(#[trigger] done[k]) > ccc(c),
                ensures
                    j == 0 || ccc(done[j - 1]) <= ccc(c),
                decreases j,
            {
                let above: char = chars[j - 1];
                assert(above == done[j - 1]);
                chars.set(j, above);
                chars.set(j - 1, c);
                assert(chars@ == done.take(j - 1).push(c) + done.skip(j - 1) + rest);
                j = j - 1;
            }
        }
        proof {
            let base = done.take(j as int);
            let tail = done.skip(j as int);
            assert(done == base + tail);
            if class != 0 {
                lemma_insert_passes(base, tail, c);
                assert(insert_mark(base, c) == base.push(c));
                assert(insert_mark(done, c) == base.push(c) + tail);
            } else {
                assert(insert_mark(done, c) == base.push(c) + tail);
            }
            assert(old(chars)@.take(i + 1).drop_last() == old(chars)@.take(i as int));
            assert(chars@ == base.push(c) + tail + rest);
            assert(chars@.take(i + 1) == base.push(c) + tail);
            assert(chars@.skip(i + 1) == rest);
            assert(rest == old(chars)@.skip(i + 1)) by {
                assert(old(chars)@.skip(i as int).skip(1) == old(chars)@.skip(i + 1));
            }
        }
        i = i + 1;
    }
    assert(chars@.take(n as int) == chars@);
    assert(old(chars)@.take(n as int) == old(chars)@);
}

// ---------------------------------------------------------------------------
// Composition
// ---------------------------------------------------------------------------
/// Is `c` a leading consonant that a Hangul syllable is made of?
pub open spec fn is_leading(c: char) -> bool {
    L_BASE <= (c as u32) < L_BASE + L_COUNT
}

/// Is `c` a vowel that a Hangul syllable is made of?
pub open spec fn is_vowel(c: char) -> bool {
    V_BASE <= (c as u32) < V_BASE + V_COUNT
}

/// Is `c` a trailing consonant that a Hangul syllable is made of?
pub open spec fn is_trailing(c: char) -> bool {
    T_BASE < (c as u32) < T_BASE + T_COUNT
}

/// Is `c` a Hangul syllable without a trailing consonant?
pub open spec fn is_open_syllable(c: char) -> bool {
    is_syllable(c) && (c as int - S_BASE) % T_COUNT as int == 0
}

/// The primary composite of `a` and `b`, if there is one: a Hangul syllable by
/// arithmetic, any other by the tables.
pub open spec fn join(a: char, b: char) -> Option<char> {
    if is_leading(a) && is_vowel(b) {
        Some(
            (S_BASE + (a as int - L_BASE) * N_COUNT + (b as int - V_BASE) * T_COUNT) as char,
        )
    } else if is_open_syllable(a) && is_trailing(b) {
        Some((a as int + (b as int - T_BASE)) as char)
    } else if has_composite(a, b) {
        Some(composite(a, b))
    } else {
        None
    }
}

/// The composition pass under way: the characters written, the place of the last
/// starter among them, and the combining class of the last character written
/// after it (zero if there is none).
pub ghost struct Pass {
    pub out: Seq<char>,
    pub starter: Option<int>,
    pub last: u8,
}

/// The composition pass before its first character.
pub open spec fn start() -> Pass {
    Pass { out: seq![], starter: None, last: 0 }
}

/// What `c` joins with in `p`: the last starter, unless a character of an equal
/// or greater class stands between.
pub open spec fn joined(p: Pass, c: char) -> Option<char> {
    if p.starter is Some && (p.last == 0 || p.last < ccc(c)) {
        join(p.out[p.starter->0], c)
    } else {
        None
    }
}

/// One step of the composition pass: `c` joins with the last starter or is
/// written out itself.
pub open spec fn step(p: Pass, c: char) -> Pass {
    if joined(p, c) is Some {
        Pass { out: p.out.update(p.starter->0, joined(p, c)->0), ..p }
    } else if ccc(c) == 0 {
        Pass { out: p.out.push(c), starter: Some(p.out.len() as int), last: 0 }
    } else {
        Pass { out: p.out.push(c), starter: p.starter, last: ccc(c) }
    }
}

/// The composition pass over `s`.
pub open spec fn pass(s: Seq<char>) -> Pass
    decreases s.len(),
{
    if s.len() == 0 {
        start()
    } else {
        step(pass(s.drop_last()), s.last())
    }
}

/// The canonical decomposition (NFD) of `s`.
pub open spec fn nfd(s: Seq<char>) -> Seq<char> {
    reorder(decompose_all(s))
}

/// The canonical composition (NFC) of `s`.
pub open spec fn nfc(s: Seq<char>) -> Seq<char> {
    pass(nfd(s)).out
}

/// The primary composite of `starter` and `combining`, if there is one.
fn compose_pair(starter: char, combining: char) -> (r: Option<char>)
    ensures
        r == join(starter, combining),
{
    let a: u32 = starter as u32;
    let b: u32 = combining as u32;
    if L_BASE <= a && a < L_BASE + L_COUNT && V_BASE <= b && b < V_BASE + V_COUNT {
        return Some(char_of(S_BASE + (a - L_BASE) * N_COUNT + (b - V_BASE) * T_COUNT));
    }
    if S_BASE <= a && a < S_BASE + S_COUNT && (a - S_BASE) % T_COUNT == 0 && T_BASE < b && b
        < T_BASE + T_COUNT {
        assert(a as int - S_BASE <= S_COUNT - T_COUNT);
        return Some(char_of(a + (b - T_BASE)));
    }
    find_composite(starter, combining)
}

/// The fully decomposed, canonically ordered characters of `s`.
fn decomposed(s: &str) -> (r: Vec<char>)
    ensures
        r@ == nfd(s@),
{
    let mut chars: Vec<char> = Vec::new();
    for c in it: s.chars()
        invariant
            it.seq() == s@,
            chars@ == decompose_all(s@.take(it.index())),
    {
        decompose_char(c, &mut chars);
        assert(s@.take(it.index() + 1).drop_last() == s@.take(it.index()));
    }
    assert(s@.take(s@.len() as int) == s@);
    canonical_reorder(&mut chars);
    chars
}

/// The composition pass over `chars`.
fn compose_all(chars: &[char]) -> (r: Vec<char>)
    ensures
        r@ == pass(chars@).out,
{
    let mut out: Vec<char> = Vec::new();
    let mut starter: Option<usize> = None;
    let mut last: u8 = 0;
    let mut i: usize = 0;
    while i < chars.len()
        invariant
            i <= chars@.len(),
            starter is Some ==> starter->0 < out@.len(),
            pass(chars@.take(i as int)).out == out@,
            pass(chars@.take(i as int)).starter is Some == starter is Some,
            starter is Some ==> pass(chars@.take(i as int)).starter->0 == starter->0,
            pass(chars@.take(i as int)).last == last,
        decreases chars@.len() - i,
    {
        let c: char = chars[i];
        let ghost p = pass(chars@.take(i as int));
        assert(chars@.take(i + 1).drop_last() == chars@.take(i as int));
        let class: u8 = find_class(c);
        i = i + 1;
        if let Some(at) = starter {
            if last == 0 || last < class {
                if let Some(composed) = compose_pair(out[at], c) {
                    out.set(at, composed);
                    continue;
                }
            }
        }
        if class == 0 {
            starter = Some(out.len());
            last = 0;
        } else {
            last = class;
        }
        out.push(c);
    }
    assert(chars@.take(chars@.len() as int) == chars@);
    out
}

// ---------------------------------------------------------------------------
// The public functions
// ---------------------------------------------------------------------------
/// The canonical combining class of a character (0 for starters).
pub fn combining_class(c: char) -> (r: u8)
    ensures
        r == ccc(c),
{
    find_class(c)
}

/// The canonical decomposition (NFD) of a string.
pub fn to_nfd(s: &str) -> (r: String)
    ensures
        r@ == nfd(s@),
{
    string_of(&decomposed(s))
}

/// The canonical composition (NFC) of a string.
pub fn to_nfc(s: &str) -> (r: String)
    ensures
        r@ == nfc(s@),
{
    string_of(&compose_all(&decomposed(s)))
}

/// Is the string already in NFC?
pub fn is_nfc(s: &str) -> (r: bool)
    ensures
        r == (nfc(s@) == s@),
{
    if s.is_ascii() {
        proof {
            law_ascii_is_nfc(s@);
        }
        return true;
    }
    same_text(&to_nfc(s), s)
}

/// What `char::to_lowercase` yields for `c`.
pub uninterp spec fn lowercase(c: char) -> Seq<char>;

/// `char::to_lowercase` maps a character to the characters of its lowercase
/// form, by the Unicode tables of the standard library: a function of the
/// character alone. What those tables hold is left unsaid.
#[verifier::external_body]
fn lowercase_of(c: char) -> (r: String)
    ensures
        r@ == lowercase(c),
{
    c.to_lowercase().to_string()
}

/// The lowercase form of `c`: for an ASCII letter its small letter, for any
/// other ASCII character itself, and else what the Unicode tables give.
pub open spec fn fold_char(c: char) -> Seq<char> {
    if 'A' <= c <= 'Z' {
        seq![(c as int + 32) as char]
    } else if c <= '\u{7F}' {
        seq![c]
    } else {
        lowercase(c)
    }
}

/// The lowercase forms of the characters of `s`, one after the other.
pub open spec fn fold_all(s: Seq<char>) -> Seq<char>
    decreases s.len(),
{
    if s.len() == 0 {
        seq![]
    } else {
        fold_all(s.drop_last()) + fold_char(s.last())
    }
}

/// The key under which a case-insensitive volume files `s`: its NFC, in
/// lowercase.
pub open spec fn casefold(s: Seq<char>) -> Seq<char> {
    fold_all(nfc(s))
}

/// `s` in lowercase, character by character.
pub fn lower(s: &str) -> (r: String)
    ensures
        r@ == fold_all(s@),
{
    let mut out = String::new();
    for c in it: s.chars()
        invariant
            it.seq() == s@,
            out@ == fold_all(s@.take(it.index())),
    {
        assert(s@.take(it.index() + 1).drop_last() == s@.take(it.index()));
        let ghost before = out@;
        if 'A' <= c && c <= 'Z' {
            out.push(char_of(c as u32 + 32));
        } else if c <= '\u{7F}' {
            out.push(c);
        } else {
            out.append(&lowercase_of(c));
        }
        assert(out@ == before + fold_char(c));
    }
    assert(s@.take(s@.len() as int) == s@);
    out
}

/// The comparison key of a name on a case-insensitive volume: its NFC, in
/// lowercase. Two names with equal keys collide there.
pub fn casefold_key(s: &str) -> (r: String)
    ensures
        r@ == casefold(s@),
{
    lower(&to_nfc(s))
}

/// How many UTF-16 code units `c` takes.
pub open spec fn utf16_width(c: char) -> nat {
    if c <= '\u{FFFF}' {
        1
    } else {
        2
    }
}

/// The length of `s` in UTF-16 code units.
pub open spec fn utf16_units(s: Seq<char>) -> nat
    decreases s.len(),
{
    if s.len() == 0 {
        0
    } else {
        utf16_units(s.drop_last()) + utf16_width(s.last())
    }
}

/// A text takes at least as many bytes in UTF-8 as code units in UTF-16, and at
/// least one of these for each character.
pub proof fn lemma_utf16_bound(s: Seq<char>)
    ensures
        s.len() <= utf16_units(s) <= utf8_len(s),
    decreases s.len(),
{
    if s.len() > 0 {
        lemma_utf16_bound(s.drop_last());
    }
}

pub proof fn lemma_utf16_concat(a: Seq<char>, b: Seq<char>)
    ensures
        utf16_units(a + b) == utf16_units(a) + utf16_units(b),
    decreases b.len(),
{
    if b.len() == 0 {
        assert(a + b == a);
    } else {
        assert((a + b).drop_last() == a + b.drop_last());
        lemma_utf16_concat(a, b.drop_last());
    }
}

/// The length of a string in UTF-16 code units: what NTFS and the Win32 API
/// count against their limit for one component.
pub fn utf16_len(s: &str) -> (r: usize)
    ensures
        r == utf16_units(s@),
{
    let bytes: usize = byte_len(s);
    let mut units: usize = 0;
    for c in it: s.chars()
        invariant
            it.seq() == s@,
            units == utf16_units(s@.take(it.index())),
            bytes == utf8_len(s@),
    {
        proof {
            let k = it.index();
            assert(s@.take(k + 1).drop_last() == s@.take(k));
            assert(s@ == s@.take(k + 1) + s@.skip(k + 1));
            lemma_utf8_len_concat(s@.take(k + 1), s@.skip(k + 1));
            lemma_utf16_bound(s@.take(k + 1));
        }
        units = units + if c <= '\u{FFFF}' {
            1
        } else {
            2
        };
    }
    assert(s@.take(s@.len() as int) == s@);
    units
}

} // verus!
