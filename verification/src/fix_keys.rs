//! Numbered names have different keys, so that among enough of them one is free.

use vstd::prelude::*;

use crate::checks::{extension_of, fitting, stem_of};
use crate::fix_laws::lemma_split;
use crate::fixname::{
    candidate, deduped, first_candidate, first_short, has_free_candidate, is_free, last_number,
    short_candidate,
};
use crate::numerals::{decimal, law_decimal_injective, lemma_decimal};
use crate::text::{upper, upper_all};
use crate::unicode::{casefold, fold_all, fold_char, nfc, nfd};
use crate::unicode_laws::{
    is_boundary, law_ascii_is_nfc, law_nfc_idempotent, law_nfc_of_nfd, law_nfc_splits,
};

verus! {

pub proof fn lemma_fold_concat(a: Seq<char>, b: Seq<char>)
    ensures
        fold_all(a + b) == fold_all(a) + fold_all(b),
    decreases b.len(),
{
    if b.len() == 0 {
        assert(a + b == a);
        assert(fold_all(a) + fold_all(b) == fold_all(a));
    } else {
        assert((a + b).drop_last() == a + b.drop_last());
        lemma_fold_concat(a, b.drop_last());
        assert(fold_all(a + b) == fold_all(a) + fold_all(b));
    }
}

/// The key of a text before a character below U+00C0 is made of the keys of both
/// parts.
pub proof fn law_casefold_splits(a: Seq<char>, b: Seq<char>)
    requires
        b.len() > 0 ==> is_boundary(b[0]),
    ensures
        casefold(a + b) == casefold(a) + casefold(b),
{
    if b.len() > 0 {
        law_nfc_splits(a, b);
        lemma_fold_concat(nfc(a), nfc(b));
    } else {
        assert(a + b == a);
        assert(nfc(b) == b) by {
            law_ascii_is_nfc(b);
        }
        assert(casefold(a) + casefold(b) == casefold(a));
    }
}

/// The key of a name does not depend on its normalization form.
pub proof fn law_keys_ignore_normalization(s: Seq<char>)
    ensures
        casefold(nfc(s)) == casefold(s),
        casefold(nfd(s)) == casefold(s),
{
    law_nfc_idempotent(s);
    law_nfc_of_nfd(s);
}

/// The key of a name does not depend on the case of the letters of an ASCII text.
pub proof fn law_keys_ignore_ascii_case(s: Seq<char>)
    requires
        forall|i: int| 0 <= i < s.len() ==> #[trigger] s[i] <= '\u{7F}',
    ensures
        casefold(upper_all(s)) == casefold(s),
    decreases s.len(),
{
    let up = upper_all(s);
    assert forall|i: int| 0 <= i < s.len() implies is_boundary(#[trigger] s[i]) by {}
    assert forall|i: int| 0 <= i < up.len() implies is_boundary(#[trigger] up[i]) by {
        assert(up[i] == upper(s[i]));
    }
    law_ascii_is_nfc(s);
    law_ascii_is_nfc(up);
    lemma_fold_upper(s);
}

proof fn lemma_fold_upper(s: Seq<char>)
    requires
        forall|i: int| 0 <= i < s.len() ==> #[trigger] s[i] <= '\u{7F}',
    ensures
        fold_all(upper_all(s)) == fold_all(s),
    decreases s.len(),
{
    if s.len() > 0 {
        let u = s.drop_last();
        assert forall|i: int| 0 <= i < u.len() implies #[trigger] u[i] <= '\u{7F}' by {
            assert(u[i] == s[i]);
        }
        lemma_fold_upper(u);
        assert(upper_all(s).drop_last() == upper_all(u));
        assert(upper_all(s).last() == upper(s.last()));
        assert(s[s.len() - 1] <= '\u{7F}');
        assert(fold_char(upper(s.last())) == fold_char(s.last()));
    }
}

/// The key of a dash and digits is the same text.
proof fn lemma_fold_digits(s: Seq<char>)
    requires
        forall|i: int| 0 <= i < s.len() ==> #[trigger] s[i] == '-' || '0' <= s[i] <= '9',
    ensures
        casefold(s) == s,
{
    assert forall|i: int| 0 <= i < s.len() implies is_boundary(#[trigger] s[i]) by {
        assert(s[i] == '-' || '0' <= s[i] <= '9');
    }
    law_ascii_is_nfc(s);
    lemma_fold_same(s);
}

proof fn lemma_fold_same(s: Seq<char>)
    requires
        forall|i: int| 0 <= i < s.len() ==> #[trigger] s[i] == '-' || '0' <= s[i] <= '9',
    ensures
        fold_all(s) == s,
    decreases s.len(),
{
    if s.len() > 0 {
        let u = s.drop_last();
        assert forall|i: int| 0 <= i < u.len() implies #[trigger] u[i] == '-' || '0' <= u[i]
            <= '9' by {
            assert(u[i] == s[i]);
        }
        lemma_fold_same(u);
        assert(s[s.len() - 1] == '-' || '0' <= s[s.len() - 1] <= '9');
        assert(u + seq![s.last()] == s);
    }
}

/// The key of a candidate with a cut stem.
proof fn lemma_short_key(name: Seq<char>, n: nat)
    ensures
        casefold(short_candidate(name, n)) == casefold(
            fitting(stem_of(name), "-"@ + decimal(n) + extension_of(name)),
        ) + (seq!['-'] + decimal(n)) + casefold(extension_of(name)),
{
    reveal_strlit("-");
    let ext = extension_of(name);
    let dash = seq!['-'] + decimal(n);
    let tail = "-"@ + decimal(n) + ext;
    let fit = fitting(stem_of(name), tail);
    lemma_split(name);
    lemma_decimal(n, 1);
    assert("-"@ == seq!['-']);
    assert(tail == dash + ext);
    law_casefold_splits(fit, tail);
    law_casefold_splits(dash, ext);
    lemma_fold_digits(dash);
    assert(casefold(fit) + (dash + casefold(ext)) == casefold(fit) + dash + casefold(ext));
}

/// Different numbers give different keys.
proof fn lemma_short_keys_differ(name: Seq<char>, m: nat, n: nat)
    requires
        casefold(short_candidate(name, m)) == casefold(short_candidate(name, n)),
    ensures
        m == n,
{
    lemma_short_key(name, m);
    lemma_short_key(name, n);
    let e = casefold(extension_of(name));
    let a = casefold(fitting(stem_of(name), "-"@ + decimal(m) + extension_of(name)));
    let b = casefold(fitting(stem_of(name), "-"@ + decimal(n) + extension_of(name)));
    let c = decimal(m);
    let d = decimal(n);
    lemma_decimal(m, 1);
    lemma_decimal(n, 1);
    let x = a + (seq!['-'] + c) + e;
    let y = b + (seq!['-'] + d) + e;
    assert(x == y);
    // The last dash stands before the number in both.
    let i = a.len() as int;
    let j = b.len() as int;
    assert(x.len() == i + 1 + c.len() + e.len());
    assert(y.len() == j + 1 + d.len() + e.len());
    assert(x[i] == '-');
    assert(y[j] == '-');
    if i < j {
        assert(x[j] == c[j - i - 1]);
        assert('0' <= c[j - i - 1] <= '9');
    } else if j < i {
        assert(y[i] == d[i - j - 1]);
        assert('0' <= d[i - j - 1] <= '9');
    }
    assert(c.len() == d.len());
    assert forall|k: int| 0 <= k < c.len() implies c[k] == d[k] by {
        assert(x[i + 1 + k] == c[k]);
        assert(y[i + 1 + k] == d[k]);
    }
    assert(c == d);
    law_decimal_injective(m, n);
}

/// The keys of the candidates with a cut stem and numbers below `n`.
spec fn short_keys(name: Seq<char>, n: nat) -> Set<Seq<char>>
    decreases n,
{
    if n <= 2 {
        Set::empty()
    } else {
        short_keys(name, (n - 1) as nat).insert(casefold(short_candidate(name, (n - 1) as nat)))
    }
}

proof fn lemma_short_keys(name: Seq<char>, taken: Seq<Seq<char>>, n: nat)
    requires
        n >= 2,
        forall|i: nat| 2 <= i < n ==> !is_free(#[trigger] short_candidate(name, i), taken),
    ensures
        short_keys(name, n).finite(),
        short_keys(name, n).len() == n - 2,
        short_keys(name, n).subset_of(taken.to_set()),
        forall|k: Seq<char>|
            short_keys(name, n).contains(k) ==> exists|i: nat|
                2 <= i < n && casefold(#[trigger] short_candidate(name, i)) == k,
    decreases n,
{
    if n > 2 {
        let m = (n - 1) as nat;
        lemma_short_keys(name, taken, m);
        let key = casefold(short_candidate(name, m));
        if short_keys(name, m).contains(key) {
            let i = choose|i: nat|
                2 <= i < m && casefold(#[trigger] short_candidate(name, i)) == key;
            lemma_short_keys_differ(name, i, m);
        }
        assert(!is_free(short_candidate(name, m), taken));
        assert(taken.to_set().contains(key));
        assert forall|k: Seq<char>| short_keys(name, n).contains(k) implies exists|i: nat|
            2 <= i < n && casefold(#[trigger] short_candidate(name, i)) == k by {
            if k == key {
                assert(casefold(short_candidate(name, m)) == k);
            }
        }
    }
}

/// Not all of more candidates than there are keys can be taken.
proof fn lemma_short_exists(name: Seq<char>, taken: Seq<Seq<char>>)
    ensures
        exists|i: nat|
            2 <= i <= taken.len() + 2 && is_free(#[trigger] short_candidate(name, i), taken),
{
    if forall|i: nat|
        2 <= i <= taken.len() + 2 ==> !is_free(#[trigger] short_candidate(name, i), taken) {
        let n = (taken.len() + 3) as nat;
        lemma_short_keys(name, taken, n);
        taken.lemma_cardinality_of_set();
        vstd::set_lib::lemma_len_subset(short_keys(name, n), taken.to_set());
        assert(false);
    }
}

proof fn lemma_first_short(name: Seq<char>, taken: Seq<Seq<char>>, n: nat, last: nat, i: nat)
    requires
        n <= i <= last,
        is_free(short_candidate(name, i), taken),
    ensures
        is_free(first_short(name, taken, n, last), taken),
        exists|k: nat|
            n <= k <= last && first_short(name, taken, n, last) == #[trigger] short_candidate(
                name,
                k,
            ),
    decreases last - n,
{
    if n >= last || is_free(short_candidate(name, n), taken) {
        assert(first_short(name, taken, n, last) == short_candidate(name, n));
    } else {
        lemma_first_short(name, taken, n + 1, last, i);
        let k = choose|k: nat|
            n + 1 <= k <= last && first_short(name, taken, n + 1, last)
                == #[trigger] short_candidate(name, k);
        assert(first_short(name, taken, n, last) == short_candidate(name, k));
    }
}

proof fn lemma_first_candidate(name: Seq<char>, taken: Seq<Seq<char>>, n: nat, last: nat, i: nat)
    requires
        n <= i <= last,
        is_free(candidate(name, i), taken),
    ensures
        is_free(first_candidate(name, taken, n, last), taken),
        exists|k: nat|
            n <= k <= last && first_candidate(name, taken, n, last) == #[trigger] candidate(
                name,
                k,
            ),
    decreases last - n,
{
    if n >= last || is_free(candidate(name, n), taken) {
        assert(first_candidate(name, taken, n, last) == candidate(name, n));
    } else {
        lemma_first_candidate(name, taken, n + 1, last, i);
        let k = choose|k: nat|
            n + 1 <= k <= last && first_candidate(name, taken, n + 1, last)
                == #[trigger] candidate(name, k);
        assert(first_candidate(name, taken, n, last) == candidate(name, k));
    }
}

/// What a bumped name is, and that its key is free.
pub proof fn lemma_deduped_is_free(name: Seq<char>, taken: Seq<Seq<char>>)
    ensures
        is_free(deduped(name, taken), taken),
        deduped(name, taken) == name || (exists|k: nat|
            2 <= k <= last_number(taken) && deduped(name, taken) == #[trigger] candidate(
                name,
                k,
            )) || (exists|k: nat|
            2 <= k <= last_number(taken) && deduped(name, taken) == #[trigger] short_candidate(
                name,
                k,
            )),
{
    let last = last_number(taken);
    if is_free(name, taken) {
    } else if has_free_candidate(name, taken, 2, last) {
        let i = choose|i: nat| 2 <= i <= last && is_free(#[trigger] candidate(name, i), taken);
        lemma_first_candidate(name, taken, 2, last, i);
    } else {
        lemma_short_exists(name, taken);
        let i = choose|i: nat|
            2 <= i <= taken.len() + 2 && is_free(#[trigger] short_candidate(name, i), taken);
        lemma_first_short(name, taken, 2, last, i);
    }
}

} // verus!
