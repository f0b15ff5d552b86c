//! The fix engine: sanitizing one name, and planning collision-free renames for a
//! whole tree.
//!
//! `sanitize_name` merges every mechanical fix into one name. The planner then
//! makes the results safe to apply: no suggested name collides, whatever its case
//! or normalization, with a kept name or another suggestion in the directory.

use vstd::prelude::*;
use vstd::string::{StrSliceExecFns, StringExecFns};
use vstd::utf8::{decode_utf8, encode_utf8, valid_utf8};

use crate::checks::{
    check_component, component_notes, device_stem, display, display_name, extension_of, fits,
    fitting, is_reserved, is_reserved_stem, mend, mended, notes_of, split_extension, stem_of,
    truncate_component, truncated, windows_stem, NameFinding, Note, Trouble, COMPONENT_LIMIT,
};
use crate::engine::Selection;
use crate::fix_keys::lemma_deduped_is_free;
use crate::numerals::{decimal, push_numeral};
use crate::order::{
    arranged, carries_order, codes, is_text_leq, lemma_arranged_map, lemma_lex_total,
    lemma_lex_transitive, lemma_text_antisymmetric, sort, text_leq, Ranked, Sortable,
};
use crate::plan_laws::lemma_planning;
use crate::rules::CHECK_COUNT;
use crate::text::{
    byte_len, chars_of, copy_bytes, first_dot, lemma_first_dot, lemma_trim_end, same_bytes,
    same_text, trim_end, trim_start, trimmed_end, trimmed_start, upper_all, utf8_len,
};
use crate::traces::is_all_of;
use crate::unicode::{casefold, casefold_key, nfc, to_nfc, utf16_len, utf16_units};
use crate::utf8::{decode, decode_lossy, lossy, patch, patched};
use crate::walker::{copy_path, parts_of, visits_of, Dir, Entry, Place, Visit, Walk};
use crate::whole_laws::{law_plans_are_whole, planned_in};

verus! {

// ---------------------------------------------------------------------------
// Sanitizing one name
// ---------------------------------------------------------------------------
/// Is the fix for the check in the `k`-th entry made?
fn on(sel: &Selection, k: usize) -> (r: bool)
    requires
        sel.is_complete(),
        k < CHECK_COUNT,
    ensures
        r == sel.runs(k as int),
{
    sel.enabled[k]
}

/// Is `s` path syntax rather than a name?
pub open spec fn is_dots(s: Seq<char>) -> bool {
    s == "."@ || s == ".."@
}

/// `s` without characters that a fix removes or replaces.
pub open spec fn without_trouble(s: Seq<char>, sel: Selection) -> Seq<char> {
    let a = if sel.runs(2) {
        mended(Trouble::Control, s)
    } else {
        s
    };
    let b = if sel.runs(1) {
        mended(Trouble::Illegal, a)
    } else {
        a
    };
    if sel.runs(8) {
        mended(Trouble::Invisible, b)
    } else {
        b
    }
}

/// `s` in NFC.
pub open spec fn normalized(s: Seq<char>, sel: Selection) -> Seq<char> {
    if sel.runs(7) {
        nfc(s)
    } else {
        s
    }
}

/// `s` without spaces at its start, and spaces and dots at its end.
pub open spec fn trimmed(s: Seq<char>, sel: Selection) -> Seq<char> {
    let a = if sel.runs(4) {
        trim_start(s)
    } else {
        s
    };
    if sel.runs(3) {
        trim_end(a)
    } else {
        a
    }
}

/// `s` cut to the component budgets.
pub open spec fn shortened(s: Seq<char>, sel: Selection) -> Seq<char> {
    if sel.runs(9) && !fits(s) {
        truncated(s)
    } else {
        s
    }
}

/// `s`, whose stem is a device name, with an underscore behind that stem; where
/// there is no room for one, with the stem cut by a character.
pub open spec fn released(s: Seq<char>) -> Seq<char> {
    let stem = device_stem(s);
    if utf8_len(s) >= COMPONENT_LIMIT || utf16_units(s) >= COMPONENT_LIMIT {
        stem.drop_last() + s.skip(stem.len() as int)
    } else {
        stem + "_"@ + s.skip(stem.len() as int)
    }
}

/// `s` with a stem that is no device name.
pub open spec fn unreserved(s: Seq<char>, sel: Selection) -> Seq<char> {
    if sel.runs(0) && is_reserved(device_stem(s)) {
        released(s)
    } else {
        s
    }
}

/// A text with every selected fix made: the characters first, then the form, the
/// ends, the length, and last the device names, which any of the others can
/// uncover.
pub open spec fn sanitized_text(s: Seq<char>, sel: Selection) -> Seq<char> {
    if is_dots(s) {
        s
    } else {
        let t = unreserved(
            shortened(trimmed(normalized(without_trouble(s, sel), sel), sel), sel),
            sel,
        );
        if t.len() == 0 {
            "_"@
        } else {
            t
        }
    }
}

/// What a name reads as: the text that it encodes. One that is not UTF-8 is
/// decoded with an underscore for each invalid byte; where that fix is off, with
/// U+FFFD for what is invalid.
pub open spec fn read(bytes: Seq<u8>, sel: Selection) -> Seq<char> {
    if valid_utf8(bytes) {
        decode_utf8(bytes)
    } else if sel.runs(12) {
        patched(bytes)
    } else {
        lossy(bytes)
    }
}

/// A name with every selected fix made.
pub open spec fn sanitized(bytes: Seq<u8>, sel: Selection) -> Seq<char> {
    sanitized_text(read(bytes, sel), sel)
}

/// Makes every selected fix on a text.
pub fn sanitize_text(text: &str, sel: &Selection) -> (r: String)
    requires
        sel.is_complete(),
    ensures
        r@ == sanitized_text(text@, *sel),
{
    if same_text(text, ".") || same_text(text, "..") {
        return text.to_owned();
    }
    let mut name: String = text.to_owned();
    if on(sel, 2) {
        name = mend(Trouble::Control, &name);
    }
    if on(sel, 1) {
        name = mend(Trouble::Illegal, &name);
    }
    if on(sel, 8) {
        name = mend(Trouble::Invisible, &name);
    }
    assert(name@ == without_trouble(text@, *sel));
    if on(sel, 7) {
        name = to_nfc(&name);
    }
    let ghost form = normalized(without_trouble(text@, *sel), *sel);
    assert(name@ == form);
    if on(sel, 4) {
        name = trimmed_start(&name).to_owned();
    }
    if on(sel, 3) {
        name = trimmed_end(&name).to_owned();
    }
    assert(name@ == trimmed(form, *sel));
    if on(sel, 9) && (byte_len(&name) > COMPONENT_LIMIT || utf16_len(&name) > COMPONENT_LIMIT) {
        name = truncate_component(&name);
    }
    let ghost short = shortened(trimmed(form, *sel), *sel);
    assert(name@ == short);
    if on(sel, 0) {
        name = release(name);
    }
    assert(name@ == unreserved(short, *sel));
    if name.as_str().unicode_len() == 0 {
        return "_".to_owned();
    }
    name
}

/// Releases a name from a device name as its stem.
fn release(name: String) -> (r: String)
    ensures
        r@ == if is_reserved(device_stem(name@)) {
            released(name@)
        } else {
            name@
        },
{
    let stem: &str = windows_stem(&name);
    if !is_reserved_stem(stem) {
        return name;
    }
    proof {
        lemma_first_dot(name@);
        lemma_trim_end(name@.take(first_dot(name@)));
        lemma_reserved_len(stem@);
    }
    let n: usize = stem.unicode_len();
    let rest: &str = name.as_str().substring_char(n, name.as_str().unicode_len());
    assert(name@.subrange(n as int, name@.len() as int) == name@.skip(n as int));
    if byte_len(&name) >= COMPONENT_LIMIT || utf16_len(&name) >= COMPONENT_LIMIT {
        assert(stem@.subrange(0, n - 1) == stem@.drop_last());
        let mut out: String = stem.substring_char(0, n - 1).to_owned();
        out.append(rest);
        out
    } else {
        let mut out: String = stem.to_owned();
        out.append("_");
        out.append(rest);
        out
    }
}

/// A device name has three or four characters.
pub proof fn lemma_reserved_len(stem: Seq<char>)
    requires
        is_reserved(stem),
    ensures
        3 <= stem.len() <= 4,
{
    reveal_strlit("CON");
    reveal_strlit("PRN");
    reveal_strlit("AUX");
    reveal_strlit("NUL");
    assert(upper_all(stem).len() == stem.len());
}

/// Merges every selected mechanical fix into one final name.
pub fn sanitize_name(bytes: &[u8], sel: &Selection) -> (r: String)
    requires
        sel.is_complete(),
    ensures
        r@ == sanitized(bytes@, *sel),
{
    match decode(bytes) {
        Ok(text) => sanitize_text(&text, sel),
        Err(_) => if on(sel, 12) {
            sanitize_text(&patch(bytes), sel)
        } else {
            sanitize_text(&decode_lossy(bytes), sel)
        },
    }
}

// ---------------------------------------------------------------------------
// Names that are not taken
// ---------------------------------------------------------------------------
/// Is the key of `name` not among `taken`?
pub open spec fn is_free(name: Seq<char>, taken: Seq<Seq<char>>) -> bool {
    !taken.contains(casefold(name))
}

/// `name` with the number `n` before its extension.
pub open spec fn numbered(name: Seq<char>, n: nat) -> Seq<char> {
    stem_of(name) + "-"@ + decimal(n) + extension_of(name)
}

/// `name` with a number, cut to the component budgets.
pub open spec fn candidate(name: Seq<char>, n: nat) -> Seq<char> {
    if fits(numbered(name, n)) {
        numbered(name, n)
    } else {
        truncated(numbered(name, n))
    }
}

/// `name` with a number, its stem cut so that the number has room.
pub open spec fn short_candidate(name: Seq<char>, n: nat) -> Seq<char> {
    let tail = "-"@ + decimal(n) + extension_of(name);
    fitting(stem_of(name), tail) + tail
}

/// Is one of the candidates from `n` to `last` free?
pub open spec fn has_free_candidate(
    name: Seq<char>,
    taken: Seq<Seq<char>>,
    n: nat,
    last: nat,
) -> bool {
    exists|i: nat| n <= i <= last && is_free(#[trigger] candidate(name, i), taken)
}

/// The first free candidate from the `n`-th on.
pub open spec fn first_candidate(
    name: Seq<char>,
    taken: Seq<Seq<char>>,
    n: nat,
    last: nat,
) -> Seq<char>
    decreases last - n,
{
    if n >= last || is_free(candidate(name, n), taken) {
        candidate(name, n)
    } else {
        first_candidate(name, taken, n + 1, last)
    }
}

/// The first free one of the candidates with a cut stem, from the `n`-th on.
pub open spec fn first_short(
    name: Seq<char>,
    taken: Seq<Seq<char>>,
    n: nat,
    last: nat,
) -> Seq<char>
    decreases last - n,
{
    if n >= last || is_free(short_candidate(name, n), taken) {
        short_candidate(name, n)
    } else {
        first_short(name, taken, n + 1, last)
    }
}

/// The last number that is tried. As many keys as are taken, and one more, have
/// different numbers up to it; and where cutting to the budgets leaves but one
/// digit, all that can come of it have come up to ten.
pub open spec fn last_number(taken: Seq<Seq<char>>) -> nat {
    if taken.len() + 2 < 10 {
        10
    } else {
        taken.len() + 2
    }
}

/// `name` if its key is free; else the first free candidate with a number; and if
/// cutting to the budgets leaves none of these, the first free one with a cut
/// stem.
pub open spec fn deduped(name: Seq<char>, taken: Seq<Seq<char>>) -> Seq<char> {
    let last = last_number(taken);
    if is_free(name, taken) {
        name
    } else if has_free_candidate(name, taken, 2, last) {
        first_candidate(name, taken, 2, last)
    } else {
        first_short(name, taken, 2, last)
    }
}

/// The texts of strings.
pub open spec fn texts_of(v: Seq<String>) -> Seq<Seq<char>> {
    v.map_values(|s: String| s@)
}

/// Is `key` among `taken`?
fn is_taken(key: &str, taken: &[String]) -> (r: bool)
    ensures
        r == texts_of(taken@).contains(key@),
{
    let mut i: usize = 0;
    while i < taken.len()
        invariant
            i <= taken@.len(),
            forall|j: int| 0 <= j < i ==> #[trigger] texts_of(taken@)[j] != key@,
        decreases taken@.len() - i,
    {
        assert(texts_of(taken@)[i as int] == taken@[i as int]@);
        if same_text(&taken[i], key) {
            return true;
        }
        i = i + 1;
    }
    false
}

/// The number that goes before an extension, and the extension.
fn number_tail(n: u128, ext: &str) -> (r: String)
    ensures
        r@ == "-"@ + decimal(n as nat) + ext@,
{
    let mut out: String = "-".to_owned();
    push_numeral(&mut out, n, 10, 1, false);
    out.append(ext);
    out
}

/// The candidate with the number `n`.
fn number(name: &str, n: u128) -> (r: String)
    ensures
        r@ == candidate(name@, n as nat),
{
    let (stem, ext) = split_extension(name);
    let mut cand: String = stem.to_owned();
    cand.append(&number_tail(n, ext));
    assert(cand@ == numbered(name@, n as nat));
    if byte_len(&cand) > COMPONENT_LIMIT || utf16_len(&cand) > COMPONENT_LIMIT {
        cand = truncate_component(&cand);
    }
    cand
}

/// The candidate with the number `n` and a cut stem.
fn number_short(name: &str, n: u128) -> (r: String)
    ensures
        r@ == short_candidate(name@, n as nat),
{
    let (stem, ext) = split_extension(name);
    let tail: String = number_tail(n, ext);
    let mut k: usize = stem.unicode_len();
    assert(stem@.take(k as int) == stem@);
    loop
        invariant
            k <= stem@.len(),
            stem@ == stem_of(name@),
            tail@ == "-"@ + decimal(n as nat) + extension_of(name@),
            fitting(stem@, tail@) == fitting(stem@.take(k as int), tail@),
        decreases k,
    {
        assert(stem@.subrange(0, k as int) == stem@.take(k as int));
        let mut cand: String = stem.substring_char(0, k).to_owned();
        cand.append(&tail);
        if k == 0 || (byte_len(&cand) <= COMPONENT_LIMIT && utf16_len(&cand) <= COMPONENT_LIMIT) {
            assert(fitting(stem@, tail@) == stem@.take(k as int));
            return cand;
        }
        assert(stem@.take(k as int).drop_last() == stem@.take(k - 1));
        k = k - 1;
    }
}

/// Bumps `name` with `-2`, `-3`, ... before the extension until its key is free.
pub fn dedupe(name: &str, taken: &[String]) -> (r: String)
    ensures
        r@ == deduped(name@, texts_of(taken@)),
        is_free(r@, texts_of(taken@)),
{
    let ghost keys = texts_of(taken@);
    assert(keys.len() == taken@.len());
    proof {
        lemma_deduped_is_free(name@, keys);
    }
    if !is_taken(&casefold_key(name), taken) {
        return name.to_owned();
    }
    let count: u128 = taken.len() as u128 + 2;
    let last: u128 = if count < 10 {
        10
    } else {
        count
    };
    let mut n: u128 = 2;
    while n <= last
        invariant
            2 <= n <= last + 1,
            last == last_number(keys),
            last < u128::MAX,
            keys == texts_of(taken@),
            !is_free(name@, keys),
            forall|i: nat| 2 <= i < n ==> !is_free(#[trigger] candidate(name@, i), keys),
            n <= last ==> first_candidate(name@, keys, 2, last as nat) == first_candidate(
                name@,
                keys,
                n as nat,
                last as nat,
            ),
        decreases last + 1 - n,
    {
        let cand: String = number(name, n);
        if !is_taken(&casefold_key(&cand), taken) {
            assert(is_free(candidate(name@, n as nat), keys));
            assert(has_free_candidate(name@, keys, 2, last as nat));
            return cand;
        }
        n = n + 1;
    }
    assert(!has_free_candidate(name@, keys, 2, last as nat));
    let mut m: u128 = 2;
    loop
        invariant
            2 <= m <= last,
            last == last_number(keys),
            last < u128::MAX,
            keys == texts_of(taken@),
            deduped(name@, keys) == first_short(name@, keys, m as nat, last as nat),
            is_free(deduped(name@, keys), keys),
        decreases last - m,
    {
        let cand: String = number_short(name, m);
        if m == last || !is_taken(&casefold_key(&cand), taken) {
            return cand;
        }
        m = m + 1;
    }
}

// ---------------------------------------------------------------------------
// Planning one directory
// ---------------------------------------------------------------------------
/// Is a name what it is sanitized to?
pub open spec fn is_own(name: Seq<u8>, sel: Selection) -> bool {
    encode_utf8(sanitized(name, sel)) == name
}

/// The key of what a name is sanitized to.
pub open spec fn key_of(name: Seq<u8>, sel: Selection) -> Seq<char> {
    casefold(sanitized(name, sel))
}

/// Are collisions among names that stay resolved?
pub open spec fn collisions_matter(sel: Selection) -> bool {
    sel.runs(5) || sel.runs(6)
}

/// Does the `i`-th name stay as it is: is it its own sanitized form, without an
/// earlier one of that kind that it collides with?
pub open spec fn stays(names: Seq<Seq<u8>>, sel: Selection, i: int) -> bool {
    is_own(names[i], sel) && (collisions_matter(sel) ==> forall|j: int|
        0 <= j < i && #[trigger] is_own(names[j], sel) ==> key_of(names[j], sel) != key_of(
            names[i],
            sel,
        ))
}

/// The keys of those of the first `k` names that stay.
pub open spec fn kept_keys(names: Seq<Seq<u8>>, sel: Selection, k: int) -> Seq<Seq<char>>
    decreases k,
{
    if k <= 0 {
        seq![]
    } else if stays(names, sel, k - 1) {
        kept_keys(names, sel, k - 1).push(key_of(names[k - 1], sel))
    } else {
        kept_keys(names, sel, k - 1)
    }
}

/// A plan under way: the renames so far, each with the place of its name, and the
/// keys that are taken.
pub ghost struct Planning {
    pub plan: Seq<(int, Seq<char>)>,
    pub taken: Seq<Seq<char>>,
}

/// The plan for the first `k` names: the keys of all names that stay are taken
/// from the outset, and each other name gets its sanitized form, bumped until its
/// key is free.
pub open spec fn planning(names: Seq<Seq<u8>>, sel: Selection, k: int) -> Planning
    decreases k,
{
    if k <= 0 {
        Planning { plan: seq![], taken: kept_keys(names, sel, names.len() as int) }
    } else {
        let p = planning(names, sel, k - 1);
        if stays(names, sel, k - 1) {
            p
        } else {
            let to = deduped(sanitized(names[k - 1], sel), p.taken);
            Planning { plan: p.plan.push((k - 1, to)), taken: p.taken.push(casefold(to)) }
        }
    }
}

/// The renames planned for a directory with these names.
pub open spec fn planned(names: Seq<Seq<u8>>, sel: Selection) -> Seq<(int, Seq<char>)> {
    planning(names, sel, names.len() as int).plan
}

/// The names of entries.
pub open spec fn names_of(entries: Seq<Entry>) -> Seq<Seq<u8>> {
    entries.map_values(|e: Entry| e.name@)
}

/// The renames of a plan.
pub open spec fn targets_of(plan: Seq<(usize, String)>) -> Seq<(int, Seq<char>)> {
    plan.map_values(|p: (usize, String)| (p.0 as int, p.1@))
}

/// Where collisions matter, the keys of the names that stay are those of all
/// names that are their own sanitized form.
pub proof fn lemma_kept_keys(names: Seq<Seq<u8>>, sel: Selection, k: int, key: Seq<char>)
    requires
        collisions_matter(sel),
        0 <= k <= names.len(),
    ensures
        kept_keys(names, sel, k).contains(key) == exists|j: int|
            0 <= j < k && #[trigger] is_own(names[j], sel) && key_of(names[j], sel) == key,
    decreases k,
{
    if k > 0 {
        lemma_kept_keys(names, sel, k - 1, key);
        let before = kept_keys(names, sel, k - 1);
        let now = kept_keys(names, sel, k);
        if stays(names, sel, k - 1) {
            assert(now == before.push(key_of(names[k - 1], sel)));
            assert(now[now.len() - 1] == key_of(names[k - 1], sel));
            if before.contains(key) {
                let i = choose|i: int| 0 <= i < before.len() && before[i] == key;
                assert(now[i] == key);
            }
            assert(is_own(names[k - 1], sel));
        } else if is_own(names[k - 1], sel) && key_of(names[k - 1], sel) == key {
            let j = choose|j: int|
                0 <= j < k - 1 && #[trigger] is_own(names[j], sel) && key_of(names[j], sel)
                    == key_of(names[k - 1], sel);
            assert(is_own(names[j], sel));
            assert(before.contains(key));
        }
    }
}

/// Plans the renames for the sorted entries of one directory, as pairs of an
/// entry's place and its new name.
pub fn plan_dir(entries: &[Entry], sel: &Selection) -> (r: Vec<(usize, String)>)
    requires
        sel.is_complete(),
    ensures
        targets_of(r@) == planned(names_of(entries@), *sel),
{
    let ghost names = names_of(entries@);
    let collisions_on: bool = on(sel, 5) || on(sel, 6);
    let mut taken: Vec<String> = Vec::new();
    let mut needs_new: Vec<usize> = Vec::new();
    let mut clean: Vec<String> = Vec::new();
    let mut i: usize = 0;
    assert(texts_of(taken@) == kept_keys(names, *sel, 0));
    while i < entries.len()
        invariant
            i <= entries@.len(),
            sel.is_complete(),
            names == names_of(entries@),
            collisions_on == collisions_matter(*sel),
            clean@.len() == i,
            forall|j: int| 0 <= j < i ==> (#[trigger] clean@[j])@ == sanitized(names[j], *sel),
            texts_of(taken@) == kept_keys(names, *sel, i as int),
            is_rest(needs_new@, names, *sel, i as int),
        decreases entries@.len() - i,
    {
        assert(names[i as int] == entries@[i as int].name@);
        let name: String = sanitize_name(&entries[i].name, sel);
        let ghost before = taken@;
        let ghost rest = needs_new@;
        let mut keep: bool = false;
        if same_bytes(name.as_str().as_bytes(), &entries[i].name) {
            assert(is_own(names[i as int], *sel));
            let key: String = casefold_key(&name);
            proof {
                if collisions_on {
                    lemma_kept_keys(names, *sel, i as int, key@);
                }
            }
            if !(collisions_on && is_taken(&key, &taken)) {
                keep = true;
                taken.push(key);
                assert(texts_of(taken@) == texts_of(before).push(key@));
            }
        }
        assert(keep == stays(names, *sel, i as int));
        if !keep {
            needs_new.push(i);
        }
        proof {
            lemma_rest_step(rest, needs_new@, names, *sel, i as int);
        }
        clean.push(name);
        i = i + 1;
    }
    let mut plan: Vec<(usize, String)> = Vec::new();
    let mut n: usize = 0;
    let ghost mut k: int = 0;
    assert(targets_of(plan@) == planning(names, *sel, 0).plan);
    proof {
        lemma_rest_gap(needs_new@, names, *sel, 0);
        k = if needs_new@.len() > 0 {
            needs_new@[0] as int
        } else {
            names.len() as int
        };
    }
    while n < needs_new.len()
        invariant
            n <= needs_new@.len(),
            entries@.len() == names.len() == clean@.len(),
            forall|j: int| 0 <= j < names.len() ==> (#[trigger] clean@[j])@ == sanitized(
                names[j],
                *sel,
            ),
            is_rest(needs_new@, names, *sel, names.len() as int),
            k == if n < needs_new@.len() {
                needs_new@[n as int] as int
            } else {
                names.len() as int
            },
            targets_of(plan@) == planning(names, *sel, k).plan,
            texts_of(taken@) == planning(names, *sel, k).taken,
        decreases needs_new@.len() - n,
    {
        let at: usize = needs_new[n];
        assert(0 <= at < names.len() && !stays(names, *sel, at as int)) by {
            assert(needs_new@[n as int] < names.len());
        }
        let ghost p = planning(names, *sel, at as int);
        assert(clean@[at as int]@ == sanitized(names[at as int], *sel));
        let target: String = dedupe(&clean[at], &taken);
        let ghost before = taken@;
        let ghost plan_before = plan@;
        taken.push(casefold_key(&target));
        assert(texts_of(taken@) == texts_of(before).push(casefold(target@)));
        plan.push((at, target));
        assert(targets_of(plan@) == targets_of(plan_before).push((at as int, target@)));
        assert(planning(names, *sel, at + 1).plan == targets_of(plan@));
        assert(planning(names, *sel, at + 1).taken == texts_of(taken@));
        proof {
            lemma_rest_gap(needs_new@, names, *sel, n + 1);
            k = if n + 1 < needs_new@.len() {
                needs_new@[n + 1] as int
            } else {
                names.len() as int
            };
        }
        n = n + 1;
    }
    plan
}

/// Are `rest` the places below `k`, in ascending order, of the names that do not
/// stay?
spec fn is_rest(rest: Seq<usize>, names: Seq<Seq<u8>>, sel: Selection, k: int) -> bool {
    &&& forall|i: int|
        0 <= i < rest.len() ==> (#[trigger] rest[i]) < k && !stays(names, sel, rest[i] as int)
    &&& forall|i: int, j: int| 0 <= i < j < rest.len() ==> #[trigger] rest[i] < #[trigger] rest[j]
    &&& forall|j: int|
        0 <= j < k && !#[trigger] stays(names, sel, j) ==> exists|i: int|
            0 <= i < rest.len() && #[trigger] rest[i] == j
}

proof fn lemma_rest_step(
    before: Seq<usize>,
    rest: Seq<usize>,
    names: Seq<Seq<u8>>,
    sel: Selection,
    k: int,
)
    requires
        is_rest(before, names, sel, k),
        0 <= k <= usize::MAX,
        rest == if stays(names, sel, k) {
            before
        } else {
            before.push(k as usize)
        },
    ensures
        is_rest(rest, names, sel, k + 1),
{
    assert forall|j: int| 0 <= j < k + 1 && !#[trigger] stays(names, sel, j) implies exists|i: int|
        0 <= i < rest.len() && #[trigger] rest[i] == j by {
        if j < k {
            let i = choose|i: int| 0 <= i < before.len() && #[trigger] before[i] == j;
            assert(rest[i] == j);
        } else {
            assert(rest[before.len() as int] == j);
        }
    }
}

/// Between two of the places nothing is planned.
proof fn lemma_rest_gap(rest: Seq<usize>, names: Seq<Seq<u8>>, sel: Selection, n: int)
    requires
        is_rest(rest, names, sel, names.len() as int),
        0 <= n <= rest.len(),
    ensures
        ({
            let from = if n > 0 {
                rest[n - 1] as int + 1
            } else {
                0
            };
            let to = if n < rest.len() {
                rest[n] as int
            } else {
                names.len() as int
            };
            from <= to && planning(names, sel, to) == planning(names, sel, from)
        }),
{
    let from = if n > 0 {
        rest[n - 1] as int + 1
    } else {
        0
    };
    let to = if n < rest.len() {
        rest[n] as int
    } else {
        names.len() as int
    };
    assert(from <= to);
    assert forall|j: int| from <= j < to implies #[trigger] stays(names, sel, j) by {
        if !stays(names, sel, j) {
            let i = choose|i: int| 0 <= i < rest.len() && #[trigger] rest[i] == j;
            if i < n - 1 {
                assert(rest[i] < rest[n - 1]);
            } else if i > n {
                assert(rest[n] < rest[i]);
            }
        }
    }
    lemma_planning_gap(names, sel, from, to);
}

proof fn lemma_planning_gap(names: Seq<Seq<u8>>, sel: Selection, from: int, to: int)
    requires
        0 <= from <= to,
        forall|j: int| from <= j < to ==> #[trigger] stays(names, sel, j),
    ensures
        planning(names, sel, to) == planning(names, sel, from),
    decreases to - from,
{
    if from < to {
        assert(stays(names, sel, to - 1));
        lemma_planning_gap(names, sel, from, to - 1);
    }
}

// ---------------------------------------------------------------------------
// Planning a tree
// ---------------------------------------------------------------------------
/// One planned rename.
pub struct Rename {
    /// The display path of the parent.
    pub dir: String,
    /// The raw components of the parent.
    pub dir_path: Vec<Vec<u8>>,
    pub from: Vec<u8>,
    pub from_display: String,
    pub to: String,
    /// The IDs of the checks that motivate the rename, in catalog order.
    pub reasons: Vec<&'static str>,
}

/// What a planned rename says.
pub ghost struct Move {
    pub dir: Seq<char>,
    pub parts: Seq<Seq<u8>>,
    pub from: Seq<u8>,
    pub from_display: Seq<char>,
    pub to: Seq<char>,
    pub reasons: Seq<Seq<char>>,
}

/// The texts of string slices.
pub open spec fn slices_of(v: Seq<&'static str>) -> Seq<Seq<char>> {
    v.map_values(|s: &'static str| s@)
}

impl View for Rename {
    type V = Move;

    open spec fn view(&self) -> Move {
        Move {
            dir: self.dir@,
            parts: parts_of(self.dir_path@),
            from: self.from@,
            from_display: self.from_display@,
            to: self.to@,
            reasons: slices_of(self.reasons@),
        }
    }
}

/// What planned renames say.
pub open spec fn moves_of(v: Seq<Rename>) -> Seq<Move> {
    v.map_values(|r: Rename| r@)
}

/// How many directories deep a display path is: how many parts it has between
/// slashes.
pub open spec fn depth(path: Seq<char>) -> nat
    decreases path.len(),
{
    if path.len() == 0 {
        0
    } else {
        depth(path.drop_last()) + if path.last() != '/' && (path.len() == 1 || path[path.len() - 2]
            == '/') {
            1nat
        } else {
            0nat
        }
    }
}

impl Ranked for Move {
    /// The deepest first, then by directory and by name.
    open spec fn leq(self, other: Move) -> bool {
        if depth(self.dir) != depth(other.dir) {
            depth(self.dir) > depth(other.dir)
        } else if self.dir != other.dir {
            text_leq(self.dir, other.dir)
        } else {
            text_leq(self.from_display, other.from_display)
        }
    }

    proof fn lemma_total(a: Move, b: Move) {
        lemma_lex_total(codes(a.dir), codes(b.dir));
        lemma_lex_total(codes(a.from_display), codes(b.from_display));
    }

    proof fn lemma_transitive(a: Move, b: Move, c: Move) {
        if depth(a.dir) == depth(b.dir) && depth(b.dir) == depth(c.dir) {
            if a.dir == b.dir && b.dir == c.dir {
                lemma_lex_transitive(
                    codes(a.from_display),
                    codes(b.from_display),
                    codes(c.from_display),
                );
            } else if a.dir != b.dir && b.dir != c.dir {
                lemma_lex_transitive(codes(a.dir), codes(b.dir), codes(c.dir));
                if a.dir == c.dir {
                    lemma_text_antisymmetric(a.dir, b.dir);
                }
            }
        }
    }
}

impl Ranked for Rename {
    open spec fn leq(self, other: Rename) -> bool {
        self@.leq(other@)
    }

    proof fn lemma_total(a: Rename, b: Rename) {
        Move::lemma_total(a@, b@);
    }

    proof fn lemma_transitive(a: Rename, b: Rename, c: Rename) {
        Move::lemma_transitive(a@, b@, c@);
    }
}

impl Sortable for Rename {
    fn is_leq(&self, other: &Rename) -> (r: bool) {
        let a: usize = path_depth(&self.dir);
        let b: usize = path_depth(&other.dir);
        if a != b {
            a > b
        } else if !same_text(&self.dir, &other.dir) {
            is_text_leq(&self.dir, &other.dir)
        } else {
            is_text_leq(&self.from_display, &other.from_display)
        }
    }
}

/// How many directories deep a display path is.
fn path_depth(path: &str) -> (r: usize)
    ensures
        r == depth(path@),
{
    let chars: Vec<char> = chars_of(path);
    let mut n: usize = 0;
    let mut i: usize = 0;
    while i < chars.len()
        invariant
            i <= chars@.len(),
            chars@ == path@,
            n <= i,
            n == depth(path@.take(i as int)),
        decreases chars@.len() - i,
    {
        assert(path@.take(i + 1).drop_last() == path@.take(i as int));
        if chars[i] != '/' && (i == 0 || chars[i - 1] == '/') {
            n = n + 1;
        }
        i = i + 1;
    }
    assert(path@.take(path@.len() as int) == path@);
    n
}

/// The IDs of those of `notes` whose check is selected and that carry a fix.
pub open spec fn fixing_ids(notes: Seq<Note>, sel: Selection) -> Seq<Seq<char>>
    decreases notes.len(),
{
    if notes.len() == 0 {
        seq![]
    } else {
        let n = notes.last();
        if sel.runs_id(n.check.id) && n.fix is Some {
            fixing_ids(notes.drop_last(), sel).push(n.check.id)
        } else {
            fixing_ids(notes.drop_last(), sel)
        }
    }
}

/// Why a name is renamed: the checks that it fails and that have a fix; and if
/// there is none, a collision.
pub open spec fn reasons_for(name: Seq<u8>, sel: Selection) -> Seq<Seq<char>> {
    let ids = fixing_ids(component_notes(name), sel);
    if ids.len() == 0 {
        seq!["NF006/NF007"@]
    } else {
        ids
    }
}

/// The first `k` renames of a directory's plan.
pub open spec fn dir_moves(
    place: Place,
    names: Seq<Seq<u8>>,
    plan: Seq<(int, Seq<char>)>,
    sel: Selection,
    k: int,
) -> Seq<Move>
    decreases k,
{
    if k <= 0 {
        seq![]
    } else {
        let (i, to) = plan[k - 1];
        dir_moves(place, names, plan, sel, k - 1).push(
            Move {
                dir: place.rel,
                parts: place.parts,
                from: names[i],
                from_display: display(names[i]),
                to,
                reasons: reasons_for(names[i], sel),
            },
        )
    }
}

/// The renames planned for the first `k` visited directories.
pub open spec fn tree_moves(visits: Seq<Visit>, sel: Selection, k: int) -> Seq<Move>
    decreases k,
{
    if k <= 0 {
        seq![]
    } else {
        let v = visits[k - 1];
        let names = names_of(v.entries);
        let plan = planned(names, sel);
        tree_moves(visits, sel, k - 1) + dir_moves(v.place, names, plan, sel, plan.len() as int)
    }
}

/// Why a name is renamed.
fn find_reasons(name: &[u8], sel: &Selection) -> (r: Vec<&'static str>)
    requires
        sel.is_complete(),
    ensures
        slices_of(r@) == reasons_for(name@, *sel),
{
    let found: Vec<NameFinding> = check_component(name);
    let ghost notes = notes_of(found@);
    let mut ids: Vec<&'static str> = Vec::new();
    let mut i: usize = 0;
    assert(slices_of(ids@) == fixing_ids(notes.take(0), *sel));
    while i < found.len()
        invariant
            i <= found@.len(),
            sel.is_complete(),
            notes == notes_of(found@),
            slices_of(ids@) == fixing_ids(notes.take(i as int), *sel),
        decreases found@.len() - i,
    {
        assert(notes.take(i + 1).drop_last() == notes.take(i as int));
        assert(notes.take(i + 1).last() == found@[i as int]@);
        if sel.is_enabled(found[i].check) && found[i].fix.is_some() {
            let ghost before = ids@;
            ids.push(found[i].check.id);
            assert(slices_of(ids@) == slices_of(before).push(found@[i as int].check.id@));
        }
        i = i + 1;
    }
    assert(notes.take(notes.len() as int) == notes);
    if ids.len() == 0 {
        ids.push("NF006/NF007");
        assert(slices_of(ids@) == seq!["NF006/NF007"@]);
    }
    ids
}

/// Appends the renames planned for one directory.
fn push_dir_moves(dir: &Dir, sel: &Selection, out: &mut Vec<Rename>)
    requires
        sel.is_complete(),
    ensures
        moves_of(final(out)@) == moves_of(old(out)@) + dir_moves(
            Place { rel: dir.rel@, parts: parts_of(dir.rel_path@) },
            names_of(dir.entries@),
            planned(names_of(dir.entries@), *sel),
            *sel,
            planned(names_of(dir.entries@), *sel).len() as int,
        ),
{
    let ghost place = Place { rel: dir.rel@, parts: parts_of(dir.rel_path@) };
    let ghost names = names_of(dir.entries@);
    let ghost plan = planned(names, *sel);
    let ghost base = moves_of(out@);
    let steps: Vec<(usize, String)> = plan_dir(&dir.entries, sel);
    proof {
        lemma_planning(names, *sel, names.len() as int);
        assert forall|a: int| 0 <= a < plan.len() implies 0 <= (#[trigger] plan[a]).0
            < names.len() by {
            let (i, to) = planning(names, *sel, names.len() as int).plan[a];
        }
        assert(base + dir_moves(place, names, plan, *sel, 0) == base);
    }
    for step in it: steps
        invariant
            sel.is_complete(),
            it.seq() == steps@,
            plan == targets_of(steps@),
            names == names_of(dir.entries@),
            place == (Place { rel: dir.rel@, parts: parts_of(dir.rel_path@) }),
            base == moves_of(old(out)@),
            forall|a: int| 0 <= a < plan.len() ==> 0 <= (#[trigger] plan[a]).0 < names.len(),
            moves_of(out@) == base + dir_moves(place, names, plan, *sel, it.index()),
    {
        let ghost k = it.index();
        assert(plan[k] == (step.0 as int, step.1@));
        let at: usize = step.0;
        let entry: &Entry = &dir.entries[at];
        assert(names[at as int] == entry.name@);
        let r = Rename {
            dir: dir.rel.clone(),
            dir_path: copy_path(&dir.rel_path),
            from: copy_bytes(&entry.name),
            from_display: display_name(&entry.name),
            to: step.1,
            reasons: find_reasons(&entry.name, sel),
        };
        let ghost before = out@;
        out.push(r);
        assert(moves_of(out@) == moves_of(before).push(r@));
        assert(base + dir_moves(place, names, plan, *sel, k + 1) == (base + dir_moves(
            place,
            names,
            plan,
            *sel,
            k,
        )).push(r@));
    }
}

/// Plans the renames for a whole tree that has been walked, the deepest first, so
/// that carrying it out from top to bottom never invalidates the path of a later
/// one.
pub fn plan(walk: &Walk, sel: &Selection) -> (r: Vec<Rename>)
    requires
        sel.is_complete(),
    ensures
        moves_of(r@) == arranged(
            tree_moves(visits_of(walk.dirs@), *sel, walk.dirs@.len() as int),
        ),
        is_all_of(
            moves_of(r@),
            |p: (int, int)| planned_in(visits_of(walk.dirs@), *sel, p.0, p.1),
        ),
{
    let ghost visits = visits_of(walk.dirs@);
    let mut renames: Vec<Rename> = Vec::new();
    let mut i: usize = 0;
    assert(moves_of(renames@) == tree_moves(visits, *sel, 0));
    while i < walk.dirs.len()
        invariant
            i <= walk.dirs@.len(),
            sel.is_complete(),
            visits == visits_of(walk.dirs@),
            moves_of(renames@) == tree_moves(visits, *sel, i as int),
        decreases walk.dirs@.len() - i,
    {
        assert(visits[i as int].place.rel == walk.dirs@[i as int].rel@);
        assert(visits[i as int].entries == walk.dirs@[i as int].entries@);
        push_dir_moves(&walk.dirs[i], sel, &mut renames);
        i = i + 1;
    }
    proof {
        let f = |x: Rename| x@;
        assert(carries_order(f));
        lemma_arranged_map(renames@, f);
        law_plans_are_whole(visits, *sel);
    }
    sort(renames)
}

} // verus!
