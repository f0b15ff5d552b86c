//! What a fix makes of the characters of a name, and what a scan counts of them.

use vstd::prelude::*;

use crate::checks::{count_in, invisible_label, is_in, kinds_in, mended, Trouble};
use crate::cli::is_white;

verus! {

/// Does `c` look like a space without being one?
pub open spec fn looks_like_space(c: char) -> bool {
    let n = c as int;
    n == 0xA0 || n == 0x1680 || 0x2000 <= n <= 0x200A || n == 0x202F || n == 0x205F
}

/// Does `c` render as nothing?
pub open spec fn renders_as_nothing(c: char) -> bool {
    let n = c as int;
    ||| n == 0xAD || n == 0x61C || n == 0x180E || n == 0xFEFF
    ||| 0x200B <= n <= 0x200F || 0x202A <= n <= 0x202E || n == 0x2060 || 0x2066 <= n <= 0x2069
}

/// What one character becomes.
pub open spec fn stand_in(t: Trouble, c: char) -> Seq<char> {
    match t {
        Trouble::Illegal => if c == '?' || c == '*' {
            seq![]
        } else if c == ':' || c == '|' || c == '\\' {
            seq!['-']
        } else if c == '"' {
            seq!['\'']
        } else if c == '<' {
            seq!['(']
        } else if c == '>' {
            seq![')']
        } else {
            seq![c]
        },
        Trouble::Control => if (c as int) < 0x20 || c as int == 0x7F {
            seq![]
        } else {
            seq![c]
        },
        Trouble::Invisible => if looks_like_space(c) {
            seq![' ']
        } else if renders_as_nothing(c) {
            seq![]
        } else {
            seq![c]
        },
    }
}

proof fn lemma_mended_one(t: Trouble, c: char)
    ensures
        mended(t, seq![c]) == stand_in(t, c),
{
    reveal_strlit("-");
    reveal_strlit("'");
    reveal_strlit("(");
    reveal_strlit(")");
    reveal_strlit("");
    reveal_with_fuel(mended, 2);
    assert(seq![c].drop_last() == Seq::<char>::empty());
    assert(mended(t, seq![c]) == stand_in(t, c));
}

/// A single character is replaced by a space if it looks like one, removed if it
/// renders as nothing or is a control character, put in a portable form if Windows
/// rejects it, and else kept.
pub proof fn law_characters_are_mended(t: Trouble, c: char)
    ensures
        mended(t, seq![c]) == stand_in(t, c),
{
    lemma_mended_one(t, c);
}

/// What a message calls an invisible character.
pub proof fn law_invisible_characters_are_named(c: char)
    requires
        looks_like_space(c) || renders_as_nothing(c),
    ensures
        invisible_label(c) == if looks_like_space(c) {
            "lookalike space"@
        } else if c as int == 0xAD {
            "soft hyphen"@
        } else if c as int == 0x200C || c as int == 0x200D {
            "zero-width joiner"@
        } else if c as int == 0x200B || c as int == 0x2060 || c as int == 0x180E || c as int
            == 0xFEFF {
            "zero-width space"@
        } else {
            "bidi control"@
        },
{
}

/// Every white space beyond ASCII looks like a space and is mended to one, except
/// those that end a line and the ideographic space, which are kept.
pub proof fn law_spaces_are_mended(c: char)
    requires
        is_white(c),
        c as int >= 0x80,
    ensures
        mended(Trouble::Invisible, seq![c]) == if c == '\u{85}' || c == '\u{2028}' || c
            == '\u{2029}' || c == '\u{3000}' {
            seq![c]
        } else {
            seq![' ']
        },
{
    lemma_mended_one(Trouble::Invisible, c);
}

/// A text is mended piece by piece.
pub proof fn law_mended_splits(t: Trouble, a: Seq<char>, b: Seq<char>)
    ensures
        mended(t, a + b) == mended(t, a) + mended(t, b),
    decreases b.len(),
{
    if b.len() == 0 {
        assert(a + b == a);
        assert(mended(t, a) + mended(t, b) == mended(t, a));
    } else {
        assert((a + b).drop_last() == a + b.drop_last());
        assert((a + b).last() == b.last());
        law_mended_splits(t, a, b.drop_last());
        assert(mended(t, a + b) == mended(t, a) + mended(t, b));
    }
}

/// A text is mended character by character: what each becomes, in order.
pub proof fn law_mended_is_flat(t: Trouble, s: Seq<char>)
    ensures
        mended(t, s) == s.map_values(|c: char| stand_in(t, c)).flatten(),
    decreases s.len(),
{
    let f = |c: char| stand_in(t, c);
    if s.len() == 0 {
        assert(s.map_values(f).flatten() == Seq::<char>::empty());
    } else {
        let u = s.skip(1);
        assert(seq![s[0]] + u == s);
        law_mended_splits(t, seq![s[0]], u);
        lemma_mended_one(t, s[0]);
        law_mended_is_flat(t, u);
        assert(s.map_values(f).drop_first() == u.map_values(f));
    }
}

/// A text none of whose characters is removed keeps its length, and each place holds
/// what its character becomes: a space where there was something that looks like one.
pub proof fn law_mended_in_place(t: Trouble, s: Seq<char>)
    requires
        forall|i: int| 0 <= i < s.len() ==> (#[trigger] stand_in(t, s[i])).len() > 0,
    ensures
        mended(t, s).len() == s.len(),
        forall|i: int|
            0 <= i < s.len() ==> seq![#[trigger] mended(t, s)[i]] == stand_in(t, s[i]),
    decreases s.len(),
{
    if s.len() > 0 {
        let u = s.drop_last();
        assert forall|i: int| 0 <= i < u.len() implies (#[trigger] stand_in(t, u[i])).len() > 0 by {
            assert(u[i] == s[i]);
        }
        law_mended_in_place(t, u);
        assert(u + seq![s.last()] == s);
        law_mended_splits(t, u, seq![s.last()]);
        lemma_mended_one(t, s.last());
        let n = s.len() - 1;
        assert(stand_in(t, s[n]).len() > 0);
        assert forall|i: int| 0 <= i < s.len() implies seq![#[trigger] mended(t, s)[i]] == stand_in(
            t,
            s[i],
        ) by {
            if i < n {
                assert(mended(t, s)[i] == mended(t, u)[i]);
                assert(u[i] == s[i]);
            } else {
                assert(stand_in(t, s[n]).len() == 1);
                assert(mended(t, s)[n] == stand_in(t, s[n])[0]);
            }
        }
    }
}

/// A character is in trouble if, and only if, it does not stay as it is.
pub proof fn law_trouble_is_what_changes(t: Trouble, c: char)
    ensures
        is_in(t, c) <==> mended(t, seq![c]) != seq![c],
{
    lemma_mended_one(t, c);
    if stand_in(t, c).len() == 0 {
        assert(stand_in(t, c) != seq![c]);
    } else {
        assert(stand_in(t, c)[0] == c <==> stand_in(t, c) == seq![c]);
    }
}

// ---------------------------------------------------------------------------
// Counting
// ---------------------------------------------------------------------------
/// The characters in trouble are counted by filtering.
pub proof fn law_trouble_is_counted(t: Trouble, s: Seq<char>)
    ensures
        count_in(t, s) == s.filter(|c: char| mended(t, seq![c]) != seq![c]).len(),
    decreases s.len(),
{
    let f = |c: char| mended(t, seq![c]) != seq![c];
    reveal(Seq::filter);
    if s.len() > 0 {
        law_trouble_is_counted(t, s.drop_last());
        law_trouble_is_what_changes(t, s.last());
    }
}

/// The kinds of characters in trouble are those that occur, each once, in the order
/// in which they first occur.
pub proof fn law_kinds_are_listed_once(t: Trouble, s: Seq<char>)
    ensures
        kinds_in(t, s).no_duplicates(),
        forall|c: char|
            #![trigger kinds_in(t, s).contains(c)]
            kinds_in(t, s).contains(c) <==> s.contains(c) && mended(t, seq![c]) != seq![c],
        forall|i: int, j: int|
            #![trigger kinds_in(t, s)[i], kinds_in(t, s)[j]]
            0 <= i < j < kinds_in(t, s).len() ==> s.index_of_first(kinds_in(t, s)[i])->0
                < s.index_of_first(kinds_in(t, s)[j])->0,
    decreases s.len(),
{
    if s.len() > 0 {
        let u = s.drop_last();
        let x = s.last();
        let n = u.len() as int;
        law_kinds_are_listed_once(t, u);
        law_trouble_is_what_changes(t, x);
        let a = kinds_in(t, u);
        let b = kinds_in(t, s);
        assert(s == u.push(x));
        assert forall|c: char| #![trigger b.contains(c)]
            b.contains(c) <==> s.contains(c) && mended(t, seq![c]) != seq![c] by {
            lemma_contains_push(u, x, c);
            lemma_contains_push(a, x, c);
            assert(a.contains(c) <==> u.contains(c) && mended(t, seq![c]) != seq![c]);
        }
        assert forall|i: int, j: int|
            #![trigger b[i], b[j]]
            0 <= i < j < b.len() implies s.index_of_first(b[i])->0 < s.index_of_first(
            b[j],
        )->0 by {
            assert(b[i] == a[i]);
            assert(a.contains(a[i]));
            lemma_first_push(u, x, a[i]);
            if j < a.len() {
                assert(b[j] == a[j]);
                assert(a.contains(a[j]));
                lemma_first_push(u, x, a[j]);
                assert(u.index_of_first(a[i])->0 < u.index_of_first(a[j])->0);
            } else {
                assert(b[j] == x);
                assert(!a.contains(x));
                assert(!u.contains(x));
                lemma_first_last(u, x);
            }
        }
    }
}

pub proof fn lemma_contains_push(s: Seq<char>, x: char, c: char)
    ensures
        s.push(x).contains(c) <==> s.contains(c) || c == x,
{
    let t = s.push(x);
    if s.contains(c) {
        let i = choose|i: int| 0 <= i < s.len() && s[i] == c;
        assert(t[i] == c);
    }
    if c == x {
        assert(t[s.len() as int] == c);
    }
    if t.contains(c) {
        let i = choose|i: int| 0 <= i < t.len() && t[i] == c;
        if i < s.len() {
            assert(s[i] == c);
        }
    }
}

proof fn lemma_first_push(s: Seq<char>, x: char, c: char)
    requires
        s.contains(c),
    ensures
        s.push(x).index_of_first(c) == s.index_of_first(c),
        0 <= s.index_of_first(c)->0 < s.len(),
{
    s.index_of_first_ensures(c);
    lemma_contains_push(s, x, c);
    s.push(x).index_of_first_ensures(c);
    let i = s.index_of_first(c)->0;
    let j = s.push(x).index_of_first(c)->0;
    if i < j {
        assert(s.push(x)[i] == c);
    } else if j < i {
        assert(s[j] == c);
    }
}

proof fn lemma_first_last(s: Seq<char>, x: char)
    requires
        !s.contains(x),
    ensures
        s.push(x).index_of_first(x) == Some(s.len() as int),
{
    lemma_contains_push(s, x, x);
    s.push(x).index_of_first_ensures(x);
    let j = s.push(x).index_of_first(x)->0;
    if j < s.len() {
        assert(s[j] == x);
    }
}

} // verus!
