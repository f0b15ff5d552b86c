//! Paths, lists and lines are split at every separator, whatever their length.

use vstd::prelude::*;

use crate::cli::{
    is_digits, items_from, lemma_next_comma, lemma_next_separator, lines_from, named_check,
    named_checks, named_target, named_targets, next_comma, next_separator, number_of, target_labels,
    trim_white, without_return,
};

use crate::numerals::{decimal, lemma_decimal};
use crate::paths::{
    components, components_from, display_path, is_component, lemma_next_slash, next_slash,
};
use crate::report::joined;
use crate::rules::{
    law_keys_name_one_check, law_target_labels_differ, names, row, Row, Target, CHECK_COUNT,
};
use crate::utf8::as_text;

verus! {

// ---------------------------------------------------------------------------
// Components of paths
// ---------------------------------------------------------------------------
proof fn lemma_slash_shift(raw: Seq<u8>, c: int, i: int)
    requires
        0 <= c,
        0 <= i,
        c + i <= raw.len(),
    ensures
        next_slash(raw, c + i) == c + next_slash(raw.skip(c), i),
    decreases raw.len() - c - i,
{
    if c + i < raw.len() && raw[c + i] != 0x2F {
        assert(raw.skip(c)[i] == raw[c + i]);
        lemma_slash_shift(raw, c, i + 1);
    } else if c + i < raw.len() {
        assert(raw.skip(c)[i] == raw[c + i]);
    }
}

proof fn lemma_components_shift(raw: Seq<u8>, c: int, i: int)
    requires
        0 <= c,
        0 <= i,
        c + i <= raw.len(),
    ensures
        components_from(raw, c + i) == components_from(raw.skip(c), i),
    decreases raw.len() - c - i,
{
    let u = raw.skip(c);
    lemma_slash_shift(raw, c, i);
    lemma_next_slash(raw, c + i);
    let end = next_slash(raw, c + i);
    assert(raw.subrange(c + i, end) == u.subrange(i, end - c));
    if end < raw.len() {
        lemma_components_shift(raw, c, end + 1 - c);
    }
}

proof fn lemma_next_slash_is(raw: Seq<u8>, from: int, k: int)
    requires
        0 <= from <= k <= raw.len(),
        forall|i: int| from <= i < k ==> #[trigger] raw[i] != 0x2F,
        k < raw.len() ==> raw[k] == 0x2F,
    ensures
        next_slash(raw, from) == k,
    decreases k - from,
{
    if from < k {
        assert(raw[from] != 0x2F);
        lemma_next_slash_is(raw, from + 1, k);
    }
}

/// A path without a slash is its only component, unless it names nothing: where it is
/// empty or a single dot.
pub proof fn law_single_component(part: Seq<u8>)
    requires
        forall|i: int| 0 <= i < part.len() ==> #[trigger] part[i] != 0x2F,
    ensures
        components(part) == if part.len() == 0 || part == seq![0x2Eu8] {
            Seq::<Seq<u8>>::empty()
        } else {
            seq![part]
        },
{
    lemma_next_slash_is(part, 0, part.len() as int);
    assert(part.subrange(0, part.len() as int) == part);
}

/// The components of two paths with a slash between are those of the one and those of
/// the other.
pub proof fn law_components_split(a: Seq<u8>, b: Seq<u8>)
    ensures
        components(a + seq![0x2Fu8] + b) == components(a) + components(b),
    decreases a.len(),
{
    let raw = a + seq![0x2Fu8] + b;
    lemma_next_slash(a, 0);
    let k = next_slash(a, 0);
    lemma_before_slash(a, 0);
    assert forall|i: int| 0 <= i < k implies #[trigger] raw[i] != 0x2F by {
        assert(raw[i] == a[i]);
    }
    assert(raw[k] == 0x2F);
    lemma_next_slash_is(raw, 0, k);
    assert(raw.subrange(0, k) == a.subrange(0, k));
    let comp = a.subrange(0, k);
    let here = if is_component(comp) {
        seq![comp]
    } else {
        Seq::<Seq<u8>>::empty()
    };
    lemma_components_shift(raw, k + 1, 0);
    assert(components(raw) == here + components(raw.skip(k + 1)));
    if k == a.len() {
        assert(raw.skip(k + 1) == b);
        assert(components(a) == here);
    } else {
        let rest = a.skip(k + 1);
        lemma_components_shift(a, k + 1, 0);
        assert(components(a) == here + components(rest));
        assert(raw.skip(k + 1) == rest + seq![0x2Fu8] + b);
        law_components_split(rest, b);
        assert(here + (components(rest) + components(b)) == here + components(rest) + components(
            b,
        ));
    }
}

proof fn lemma_before_slash(raw: Seq<u8>, from: int)
    requires
        0 <= from <= raw.len(),
    ensures
        forall|i: int| from <= i < next_slash(raw, from) ==> #[trigger] raw[i] != 0x2F,
        next_slash(raw, from) < raw.len() ==> raw[next_slash(raw, from)] == 0x2F,
    decreases raw.len() - from,
{
    if from < raw.len() && raw[from] != 0x2F {
        lemma_before_slash(raw, from + 1);
    }
}

/// The display path of a directory is the texts of its components with slashes
/// between.
pub proof fn law_display_path_joins(parts: Seq<Seq<u8>>)
    requires
        forall|i: int| 0 <= i < parts.len() ==> (#[trigger] as_text(parts[i])).len() > 0,
    ensures
        display_path(parts) == joined(parts.map_values(|p: Seq<u8>| as_text(p)), "/"@),
        parts.len() > 0 ==> display_path(parts).len() > 0,
    decreases parts.len(),
{
    let f = |p: Seq<u8>| as_text(p);
    let texts = parts.map_values(f);
    if parts.len() > 0 {
        let u = parts.drop_last();
        assert forall|i: int| 0 <= i < u.len() implies (#[trigger] as_text(u[i])).len() > 0 by {
            assert(u[i] == parts[i]);
        }
        law_display_path_joins(u);
        assert(texts.drop_last() == u.map_values(f));
        assert(as_text(parts[parts.len() - 1]).len() > 0);
        if u.len() == 0 {
            assert(display_path(u) == Seq::<char>::empty());
            assert(texts[0] == as_text(parts.last()));
        }
    }
}

// ---------------------------------------------------------------------------
// Lines
// ---------------------------------------------------------------------------
/// What separates the paths on standard input.
pub open spec fn separator(null: bool) -> u8 {
    if null {
        0x00u8
    } else {
        0x0Au8
    }
}

proof fn lemma_separator_shift(raw: Seq<u8>, sep: u8, c: int, i: int)
    requires
        0 <= c,
        0 <= i,
        c + i <= raw.len(),
    ensures
        next_separator(raw, sep, c + i) == c + next_separator(raw.skip(c), sep, i),
    decreases raw.len() - c - i,
{
    if c + i < raw.len() {
        assert(raw.skip(c)[i] == raw[c + i]);
        if raw[c + i] != sep {
            lemma_separator_shift(raw, sep, c, i + 1);
        }
    }
}

proof fn lemma_lines_shift(raw: Seq<u8>, null: bool, c: int, i: int)
    requires
        0 <= c,
        0 <= i,
        c + i <= raw.len(),
    ensures
        lines_from(raw, null, c + i) == lines_from(raw.skip(c), null, i),
    decreases raw.len() - c - i,
{
    let sep = separator(null);
    let u = raw.skip(c);
    lemma_separator_shift(raw, sep, c, i);
    lemma_next_separator(raw, sep, c + i);
    let end = next_separator(raw, sep, c + i);
    assert(raw.subrange(c + i, end) == u.subrange(i, end - c));
    if end < raw.len() {
        lemma_lines_shift(raw, null, c, end + 1 - c);
    }
}

proof fn lemma_next_separator_is(raw: Seq<u8>, sep: u8, from: int, k: int)
    requires
        0 <= from <= k <= raw.len(),
        forall|i: int| from <= i < k ==> #[trigger] raw[i] != sep,
        k < raw.len() ==> raw[k] == sep,
    ensures
        next_separator(raw, sep, from) == k,
    decreases k - from,
{
    if from < k {
        assert(raw[from] != sep);
        lemma_next_separator_is(raw, sep, from + 1, k);
    }
}

proof fn lemma_before_separator(raw: Seq<u8>, sep: u8, from: int)
    requires
        0 <= from <= raw.len(),
    ensures
        forall|i: int| from <= i < next_separator(raw, sep, from) ==> #[trigger] raw[i] != sep,
        next_separator(raw, sep, from) < raw.len() ==> raw[next_separator(raw, sep, from)] == sep,
    decreases raw.len() - from,
{
    if from < raw.len() && raw[from] != sep {
        lemma_before_separator(raw, sep, from + 1);
    }
}

/// A single line is a path, unless it is empty; where lines end in newlines, a
/// carriage return at its end is no part of it.
pub proof fn law_single_line(line: Seq<u8>, null: bool)
    requires
        forall|i: int| 0 <= i < line.len() ==> #[trigger] line[i] != separator(null),
    ensures
        lines_from(line, null, 0) == {
            let path = if !null && line.len() > 0 && line[line.len() - 1] == 0x0D {
                line.take(line.len() - 1)
            } else {
                line
            };
            if path.len() == 0 {
                Seq::<Seq<u8>>::empty()
            } else {
                seq![path]
            }
        },
{
    lemma_next_separator_is(line, separator(null), 0, line.len() as int);
    assert(line.subrange(0, line.len() as int) == line);
    if line.len() > 0 {
        assert(line.drop_last() == line.take(line.len() - 1));
    }
}

/// What is read of two inputs with a separator between is what is read of the one and
/// of the other.
pub proof fn law_lines_split(a: Seq<u8>, b: Seq<u8>, null: bool)
    ensures
        lines_from(a + seq![separator(null)] + b, null, 0) == lines_from(a, null, 0) + lines_from(
            b,
            null,
            0,
        ),
    decreases a.len(),
{
    let sep = separator(null);
    let raw = a + seq![sep] + b;
    lemma_next_separator(a, sep, 0);
    let k = next_separator(a, sep, 0);
    lemma_before_separator(a, sep, 0);
    assert forall|i: int| 0 <= i < k implies #[trigger] raw[i] != sep by {
        assert(raw[i] == a[i]);
    }
    assert(raw[k] == sep);
    lemma_next_separator_is(raw, sep, 0, k);
    assert(raw.subrange(0, k) == a.subrange(0, k));
    let line = without_return(a.subrange(0, k), null);
    let here = if line.len() > 0 {
        seq![line]
    } else {
        Seq::<Seq<u8>>::empty()
    };
    lemma_lines_shift(raw, null, k + 1, 0);
    assert(lines_from(raw, null, 0) == here + lines_from(raw.skip(k + 1), null, 0));
    if k == a.len() {
        assert(raw.skip(k + 1) == b);
        assert(lines_from(a, null, 0) == here);
    } else {
        let rest = a.skip(k + 1);
        lemma_lines_shift(a, null, k + 1, 0);
        assert(lines_from(a, null, 0) == here + lines_from(rest, null, 0));
        assert(raw.skip(k + 1) == rest + seq![sep] + b);
        law_lines_split(rest, b, null);
        assert(here + (lines_from(rest, null, 0) + lines_from(b, null, 0)) == here + lines_from(
            rest,
            null,
            0,
        ) + lines_from(b, null, 0));
    }
}

// ---------------------------------------------------------------------------
// Lists
// ---------------------------------------------------------------------------
proof fn lemma_comma_shift(s: Seq<char>, c: int, i: int)
    requires
        0 <= c,
        0 <= i,
        c + i <= s.len(),
    ensures
        next_comma(s, c + i) == c + next_comma(s.skip(c), i),
    decreases s.len() - c - i,
{
    if c + i < s.len() {
        assert(s.skip(c)[i] == s[c + i]);
        if s[c + i] != ',' {
            lemma_comma_shift(s, c, i + 1);
        }
    }
}

proof fn lemma_items_shift(s: Seq<char>, c: int, i: int)
    requires
        0 <= c,
        0 <= i,
        c + i <= s.len(),
    ensures
        items_from(s, c + i) == items_from(s.skip(c), i),
    decreases s.len() - c - i,
{
    let u = s.skip(c);
    lemma_comma_shift(s, c, i);
    lemma_next_comma(s, c + i);
    let end = next_comma(s, c + i);
    assert(s.subrange(c + i, end) == u.subrange(i, end - c));
    if end < s.len() {
        lemma_items_shift(s, c, end + 1 - c);
    }
}

proof fn lemma_next_comma_is(s: Seq<char>, from: int, k: int)
    requires
        0 <= from <= k <= s.len(),
        forall|i: int| from <= i < k ==> #[trigger] s[i] != ',',
        k < s.len() ==> s[k] == ',',
    ensures
        next_comma(s, from) == k,
    decreases k - from,
{
    if from < k {
        assert(s[from] != ',');
        lemma_next_comma_is(s, from + 1, k);
    }
}

proof fn lemma_before_comma(s: Seq<char>, from: int)
    requires
        0 <= from <= s.len(),
    ensures
        forall|i: int| from <= i < next_comma(s, from) ==> #[trigger] s[i] != ',',
        next_comma(s, from) < s.len() ==> s[next_comma(s, from)] == ',',
    decreases s.len() - from,
{
    if from < s.len() && s[from] != ',' {
        lemma_before_comma(s, from + 1);
    }
}

/// A list without a comma holds one item, without white space at its ends, unless
/// nothing else is there.
pub proof fn law_single_item(item: Seq<char>)
    requires
        forall|i: int| 0 <= i < item.len() ==> #[trigger] item[i] != ',',
    ensures
        items_from(item, 0) == if trim_white(item).len() == 0 {
            Seq::<Seq<char>>::empty()
        } else {
            seq![trim_white(item)]
        },
{
    lemma_next_comma_is(item, 0, item.len() as int);
    assert(item.subrange(0, item.len() as int) == item);
}

/// The items of two lists with a comma between are those of the one and those of the
/// other.
pub proof fn law_items_split(a: Seq<char>, b: Seq<char>)
    ensures
        items_from(a + seq![','] + b, 0) == items_from(a, 0) + items_from(b, 0),
    decreases a.len(),
{
    let s = a + seq![','] + b;
    lemma_next_comma(a, 0);
    let k = next_comma(a, 0);
    lemma_before_comma(a, 0);
    assert forall|i: int| 0 <= i < k implies #[trigger] s[i] != ',' by {
        assert(s[i] == a[i]);
    }
    assert(s[k] == ',');
    lemma_next_comma_is(s, 0, k);
    assert(s.subrange(0, k) == a.subrange(0, k));
    let item = trim_white(a.subrange(0, k));
    let here = if item.len() > 0 {
        seq![item]
    } else {
        Seq::<Seq<char>>::empty()
    };
    lemma_items_shift(s, k + 1, 0);
    assert(items_from(s, 0) == here + items_from(s.skip(k + 1), 0));
    if k == a.len() {
        assert(s.skip(k + 1) == b);
        assert(items_from(a, 0) == here);
    } else {
        let rest = a.skip(k + 1);
        lemma_items_shift(a, k + 1, 0);
        assert(items_from(a, 0) == here + items_from(rest, 0));
        assert(s.skip(k + 1) == rest + seq![','] + b);
        law_items_split(rest, b);
        assert(here + (items_from(rest, 0) + items_from(b, 0)) == here + items_from(rest, 0)
            + items_from(b, 0));
    }
}

/// Items that name checks are read one for one.
pub proof fn law_checks_are_named(items: Seq<Seq<char>>, rows: Seq<int>, k: int)
    requires
        0 <= k <= items.len() == rows.len(),
        forall|i: int|
            0 <= i < items.len() ==> 0 <= #[trigger] rows[i] < CHECK_COUNT && names(
                items[i],
                rows[i],
            ),
    ensures
        named_checks(items, k) == Ok::<Seq<Row>, Seq<char>>(
            Seq::new(k as nat, |i: int| row(rows[i])),
        ),
    decreases k,
{
    if k == 0 {
        assert(Seq::new(0, |i: int| row(rows[i])) == Seq::<Row>::empty());
    } else {
        law_checks_are_named(items, rows, k - 1);
        let key = items[k - 1];
        assert(0 <= rows[k - 1] < CHECK_COUNT);
        let j = choose|j: int| 0 <= j < CHECK_COUNT && #[trigger] names(key, j);
        law_keys_name_one_check(key, j, rows[k - 1]);
        assert(Seq::new((k - 1) as nat, |i: int| row(rows[i])).push(row(rows[k - 1])) == Seq::new(
            k as nat,
            |i: int| row(rows[i]),
        ));
    }
}

/// Items that name targets are read one for one.
pub proof fn law_targets_are_named(targets: Seq<Target>, k: int)
    requires
        0 <= k <= targets.len(),
    ensures
        named_targets(target_labels(targets), k) == Ok::<Seq<Target>, Seq<char>>(targets.take(k)),
    decreases k,
{
    if k == 0 {
        assert(targets.take(0) == Seq::<Target>::empty());
    } else {
        law_targets_are_named(targets, k - 1);
        let t = targets[k - 1];
        assert(target_labels(targets)[k - 1] == t.label());
        let u = choose|u: Target| #[trigger] u.label() == t.label();
        law_target_labels_differ(t, u);
        assert(targets.take(k - 1).push(t) == targets.take(k));
    }
}

/// A list with an item that names no check is refused.
pub proof fn law_unknown_items_are_refused(items: Seq<Seq<char>>, i: int, k: int)
    requires
        0 <= i < k <= items.len(),
        named_check(items[i]) is None,
    ensures
        named_checks(items, k) is Err,
    decreases k,
{
    if i < k - 1 {
        law_unknown_items_are_refused(items, i, k - 1);
    }
}

/// A list with an item that names no target is refused.
pub proof fn law_unknown_targets_are_refused(items: Seq<Seq<char>>, i: int, k: int)
    requires
        0 <= i < k <= items.len(),
        named_target(items[i]) is None,
    ensures
        named_targets(items, k) is Err,
    decreases k,
{
    if i < k - 1 {
        law_unknown_targets_are_refused(items, i, k - 1);
    }
}

// ---------------------------------------------------------------------------
// Numbers
// ---------------------------------------------------------------------------
/// A number reads back from its numeral, with or without a plus before it.
pub proof fn law_numerals_are_read(n: nat)
    requires
        n <= usize::MAX,
    ensures
        number_of(decimal(n)) == Some(n as int),
        number_of(seq!['+'] + decimal(n)) == Some(n as int),
{
    lemma_decimal(n, 1);
    let s = decimal(n);
    assert('0' <= s[0] <= '9');
    assert(is_digits(s));
    let t = seq!['+'] + s;
    assert(t[0] == '+');
    assert(t.skip(1) == s);
}

/// What holds anything but digits, behind a plus or not, is no number.
pub proof fn law_other_texts_are_no_numbers(s: Seq<char>, i: int)
    requires
        0 <= i < s.len(),
        !('0' <= s[i] <= '9'),
        i > 0 || s[i] != '+' || s.len() == 1,
    ensures
        number_of(s) is None,
{
    let digits = if s.len() > 0 && s[0] == '+' {
        s.skip(1)
    } else {
        s
    };
    if s[0] == '+' {
        if i > 0 {
            assert(digits[i - 1] == s[i]);
            assert(!is_digits(digits));
        }
    } else {
        assert(!is_digits(digits));
    }
}

} // verus!
