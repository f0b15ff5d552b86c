//! What a number keeps of a name: it uncovers no device name, and it makes a name
//! of path syntax.

use vstd::prelude::*;

use crate::checks::{device_stem, extension_of, fits, fitting, is_in, is_reserved, stem_of, Trouble};
use crate::engine::Selection;
use crate::fix_keys::lemma_deduped_is_free;
use crate::fix_laws::{
    is_clean, lemma_device_stem, lemma_fitting, lemma_reserved_chars, lemma_short_fits, lemma_split,
    lemma_trim_behind,
};
use crate::fixname::{
    candidate, deduped, is_dots, last_number, lemma_reserved_len, numbered, short_candidate,
};
use crate::numerals::{decimal, lemma_decimal, lemma_decimal_is_short};
use crate::text::{
    first_dot, is_stripped, last_dot, lemma_first_dot, lemma_first_dot_at, lemma_last_dot,
    lemma_trim_end, trim_end,
};
use crate::unicode_laws::{is_boundary, law_ascii_is_nfc};

verus! {

/// The number of a candidate, with its dash.
spec fn dashed(k: nat) -> Seq<char> {
    seq!['-'] + decimal(k)
}

proof fn lemma_dashed(k: nat)
    ensures
        dashed(k).len() > 1,
        dashed(k)[0] == '-',
        forall|i: int|
            0 <= i < dashed(k).len() ==> #[trigger] dashed(k)[i] == '-' || '0' <= dashed(k)[i]
                <= '9',
{
    lemma_decimal(k, 1);
    assert forall|i: int| 0 <= i < dashed(k).len() implies #[trigger] dashed(k)[i] == '-' || '0'
        <= dashed(k)[i] <= '9' by {
        if i > 0 {
            assert(dashed(k)[i] == decimal(k)[i - 1]);
        }
    }
}

// ---------------------------------------------------------------------------
// Device names
// ---------------------------------------------------------------------------
/// A text with a dash before its first dot has no device name as its stem.
proof fn lemma_dash_frees(b: Seq<char>, m: int)
    requires
        0 <= m < b.len(),
        b[m] == '-',
        forall|i: int| 0 <= i < m ==> #[trigger] b[i] != '.',
    ensures
        !is_reserved(device_stem(b)),
{
    lemma_first_dot(b);
    lemma_device_stem(b);
    let stem = device_stem(b);
    assert(first_dot(b) > m) by {
        if first_dot(b) <= m {
            assert(b[first_dot(b)] == '.');
        }
    }
    assert(m < stem.len()) by {
        if m >= stem.len() {
            assert(is_stripped(b[m]));
        }
    }
    assert(stem[m] == '-');
    if is_reserved(stem) {
        lemma_reserved_chars(stem, m);
    }
}

/// The device stem depends on what stands up to the first dot.
proof fn lemma_same_head(a: Seq<char>, b: Seq<char>)
    requires
        first_dot(a) < a.len(),
        first_dot(a) < b.len(),
        forall|i: int| 0 <= i <= first_dot(a) ==> #[trigger] b[i] == a[i],
    ensures
        device_stem(b) == device_stem(a),
{
    lemma_first_dot(a);
    let p = first_dot(a);
    lemma_first_dot_at(b, p);
    assert(a.take(p) == b.take(p));
}

/// A stem, cut or not, with a number behind it.
proof fn lemma_numbered_unreserved(s: Seq<char>, m: int, tail: Seq<char>)
    requires
        !is_reserved(device_stem(s)),
        0 <= m <= stem_of(s).len(),
        tail.len() > 0,
        tail[0] == '-',
    ensures
        !is_reserved(device_stem(s.take(m) + tail)),
{
    let to = s.take(m) + tail;
    lemma_split(s);
    lemma_first_dot(s);
    if first_dot(s) < m {
        lemma_same_head(s, to);
    } else {
        assert(to[m] == '-');
        assert forall|i: int| 0 <= i < m implies #[trigger] to[i] != '.' by {
            assert(to[i] == s[i]);
        }
        lemma_dash_frees(to, m);
    }
}

/// A stem without the spaces and dots at its end.
proof fn lemma_stripped_unreserved(s: Seq<char>)
    requires
        !is_reserved(device_stem(s)),
    ensures
        !is_reserved(device_stem(trim_end(stem_of(s)) + extension_of(s))),
{
    let stem = stem_of(s);
    let ext = extension_of(s);
    let kept = trim_end(stem);
    let to = kept + ext;
    let p = first_dot(s);
    lemma_split(s);
    lemma_first_dot(s);
    lemma_trim_end(stem);
    assert(p <= stem.len()) by {
        if p > stem.len() {
            assert(s[stem.len() as int] == ext[0]);
        }
    }
    assert forall|i: int| 0 <= i < kept.len() implies #[trigger] to[i] == s[i] by {
        assert(kept[i] == stem[i]);
    }
    if p < kept.len() {
        lemma_same_head(s, to);
    } else {
        let gap = stem.subrange(kept.len() as int, p);
        assert forall|i: int| 0 <= i < gap.len() implies is_stripped(#[trigger] gap[i]) by {
            assert(gap[i] == stem[kept.len() + i]);
        }
        assert(s.take(p) == kept + gap);
        lemma_trim_behind(kept, gap);
        if ext.len() > 0 {
            assert(to[kept.len() as int] == ext[0]);
        }
        lemma_first_dot_at(to, kept.len() as int);
        assert(to.take(kept.len() as int) == kept);
        assert(kept + Seq::<char>::empty() == kept);
        lemma_trim_behind(kept, Seq::<char>::empty());
    }
}

/// A number goes before the extension, which stays the extension.
proof fn lemma_numbered_split(s: Seq<char>, k: nat)
    ensures
        numbered(s, k) == stem_of(s) + dashed(k) + extension_of(s),
        stem_of(numbered(s, k)) == stem_of(s) + dashed(k),
        extension_of(numbered(s, k)) == extension_of(s),
{
    reveal_strlit("-");
    assert("-"@ == seq!['-']);
    let stem = stem_of(s);
    let ext = extension_of(s);
    let dash = dashed(k);
    let r = stem + dash + ext;
    assert(numbered(s, k) == r);
    lemma_split(s);
    lemma_dashed(k);
    lemma_last_dot(s);
    lemma_last_dot(r);
    let shift = dash.len() as int;
    let n = stem.len() as int;
    assert forall|i: int| n <= i < n + shift implies #[trigger] r[i] != '.' by {
        assert(r[i] == dash[i - n]);
    }
    if ext.len() > 0 {
        assert(r[n + shift] == ext[0]);
        assert forall|i: int| n + shift < i < r.len() implies #[trigger] r[i] != '.' by {
            assert(r[i] == s[i - shift]);
        }
        assert(last_dot(r) == n + shift);
    } else {
        assert forall|i: int| 0 <= i < n implies #[trigger] r[i] == s[i] by {}
        if last_dot(s) >= 0 {
            assert(r[last_dot(s)] == '.');
        }
        if last_dot(r) >= 0 {
            assert(s[last_dot(r)] == '.');
        }
        assert(last_dot(r) == last_dot(s));
    }
    assert(r.take(n + shift) == stem + dash || ext.len() == 0);
    assert(stem_of(r) == stem + dash);
    assert(extension_of(r) == ext);
}

/// What fits is not cut.
proof fn lemma_fitting_keeps(w: Seq<char>, m: int, ext: Seq<char>)
    requires
        0 <= m <= w.len(),
        fits(w.take(m) + ext),
    ensures
        fitting(w, ext).len() >= m,
    decreases w.len(),
{
    if m == w.len() {
        assert(w.take(m) == w);
    } else if !fits(w + ext) {
        assert(w.drop_last().take(m) == w.take(m));
        lemma_fitting_keeps(w.drop_last(), m, ext);
    }
}

/// Bumping a name that fits the budgets uncovers no device name.
pub proof fn lemma_deduped_unreserved(s: Seq<char>, taken: Seq<Seq<char>>)
    requires
        s.len() > 0,
        fits(s),
        !is_reserved(device_stem(s)),
        taken.len() <= u64::MAX,
    ensures
        !is_reserved(device_stem(deduped(s, taken))),
{
    reveal_strlit("-");
    reveal_strlit("_");
    assert("-"@ == seq!['-']);
    let to = deduped(s, taken);
    let stem = stem_of(s);
    let ext = extension_of(s);
    let n = stem.len() as int;
    lemma_split(s);
    lemma_deduped_is_free(s, taken);
    if to == s {
    } else if exists|k: nat| 2 <= k <= last_number(taken) && to == #[trigger] candidate(s, k) {
        let k = choose|k: nat| 2 <= k <= last_number(taken) && to == #[trigger] candidate(s, k);
        let dash = dashed(k);
        let r = numbered(s, k);
        lemma_dashed(k);
        lemma_numbered_split(s, k);
        assert(stem == s.take(n));
        if fits(r) {
            assert(r == s.take(n) + (dash + ext));
            lemma_numbered_unreserved(s, n, dash + ext);
        } else {
            let w = stem + dash;
            assert(w.take(n) == stem);
            lemma_fitting_keeps(w, n, ext);
            lemma_short_fits(ext);
            lemma_fitting(w, ext);
            let cut = fitting(w, ext);
            let q = cut.len() - n;
            if q > 0 {
                assert(cut == stem + dash.take(q));
                assert(!is_stripped(cut.last())) by {
                    assert(cut.last() == dash[q - 1]);
                }
                assert(cut + Seq::<char>::empty() == cut);
                lemma_trim_behind(cut, Seq::<char>::empty());
                assert(to == s.take(n) + (dash.take(q) + ext));
                lemma_numbered_unreserved(s, n, dash.take(q) + ext);
            } else {
                assert(cut == stem);
                lemma_stripped_unreserved(s);
                if trim_end(stem).len() == 0 && ext.len() == 0 {
                    assert(to == "_"@);
                    lemma_device_stem(to);
                    if is_reserved(device_stem(to)) {
                        lemma_reserved_len(device_stem(to));
                    }
                }
            }
        }
    } else {
        let k = choose|k: nat|
            2 <= k <= last_number(taken) && to == #[trigger] short_candidate(s, k);
        let tail = "-"@ + decimal(k) + ext;
        lemma_decimal_is_short(k);
        lemma_short_fits(tail);
        lemma_fitting(stem, tail);
        let m = fitting(stem, tail).len() as int;
        assert(stem.take(m) == s.take(m));
        lemma_numbered_unreserved(s, m, tail);
    }
}

// ---------------------------------------------------------------------------
// Path syntax
// ---------------------------------------------------------------------------
/// Path syntax that is bumped is a clean name, but that two dots keep the second
/// one behind the number.
pub proof fn lemma_dots_bumped(s: Seq<char>, taken: Seq<Seq<char>>, sel: Selection)
    requires
        is_dots(s),
        taken.len() <= u64::MAX,
        sel.runs(3) ==> s != ".."@,
        deduped(s, taken) != s,
    ensures
        is_clean(deduped(s, taken), sel),
{
    reveal_strlit("-");
    reveal_strlit(".");
    reveal_strlit("..");
    assert("-"@ == seq!['-']);
    let to = deduped(s, taken);
    let stem = stem_of(s);
    let ext = extension_of(s);
    lemma_split(s);
    lemma_deduped_is_free(s, taken);
    lemma_last_dot(s);
    assert(s.len() == 1 ==> last_dot(s) == 0);
    assert(s.len() == 2 ==> last_dot(s) == 1);
    assert(stem == seq!['.']);
    let k = if exists|k: nat| 2 <= k <= last_number(taken) && to == #[trigger] candidate(s, k) {
        choose|k: nat| 2 <= k <= last_number(taken) && to == #[trigger] candidate(s, k)
    } else {
        choose|k: nat| 2 <= k <= last_number(taken) && to == #[trigger] short_candidate(s, k)
    };
    lemma_dashed(k);
    lemma_numbered_split(s, k);
    lemma_decimal_is_short(k);
    let dash = dashed(k);
    let r = stem + dash + ext;
    lemma_short_fits(r);
    let tail = "-"@ + decimal(k) + ext;
    assert(stem + tail == r);
    assert(fitting(stem, tail) == stem);
    assert(to == r);
    assert forall|i: int| 0 <= i < r.len() implies #[trigger] r[i] == '.' || r[i] == '-' || '0'
        <= r[i] <= '9' by {
        if 1 <= i <= dash.len() {
            assert(r[i] == dash[i - 1]);
        } else if i > dash.len() {
            assert(r[i] == ext[i - 1 - dash.len()]);
            assert(ext[i - 1 - dash.len()] == s[i - dash.len()]);
        }
    }
    assert forall|i: int| 0 <= i < r.len() implies is_boundary(#[trigger] r[i]) by {
        assert(r[i] == '.' || r[i] == '-' || '0' <= r[i] <= '9');
    }
    law_ascii_is_nfc(r);
    assert forall|t: Trouble, i: int| 0 <= i < r.len() implies !#[trigger] is_in(t, r[i]) by {
        assert(r[i] == '.' || r[i] == '-' || '0' <= r[i] <= '9');
    }
    assert(r[0] == '.');
    lemma_first_dot_at(r, 0);
    lemma_device_stem(r);
    if is_reserved(device_stem(r)) {
        lemma_reserved_len(device_stem(r));
    }
    if sel.runs(3) {
        assert(ext.len() == 0);
        assert(r.last() == dash[dash.len() - 1]);
        assert(dash[dash.len() - 1] == decimal(k)[decimal(k).len() - 1]);
    }
}

} // verus!
