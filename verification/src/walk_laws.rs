//! What walks satisfy: they do not depend on the order in which directories are
//! read, keep their limit, and visit a whole tree once, in order.

use vstd::prelude::*;

use crate::order::{
    arranged, bytes_leq, is_ascending, law_arranged, lemma_bytes_antisymmetric,
    lemma_parts_antisymmetric, lemma_parts_transitive, parts_leq, Ranked,
};
use crate::paths::display_path;
use crate::text_laws::law_directories_are_counted;
use crate::walker::{
    advanced, beginning, children, count_entries, is_git, is_over, is_within, lemma_step_is_within,
    path_in, visited, Entry, Place, Progress, Visit,
};

verus! {

// ---------------------------------------------------------------------------
// Determinism
// ---------------------------------------------------------------------------
/// Do entries of one name not differ, as in a directory?
pub open spec fn has_one_per_name(entries: Seq<Entry>) -> bool {
    forall|x: Entry, y: Entry|
        #[trigger] entries.contains(x) && #[trigger] entries.contains(y) && x.name@ == y.name@
            ==> x == y
}

/// There is one way to put such entries in ascending order.
proof fn lemma_one_order(s: Seq<Entry>, t: Seq<Entry>)
    requires
        has_one_per_name(s),
        is_ascending(s),
        is_ascending(t),
        s.to_multiset() == t.to_multiset(),
    ensures
        s == t,
    decreases s.len(),
{
    broadcast use vstd::seq_lib::group_to_multiset_ensures;

    assert(s.len() == s.to_multiset().len());
    assert(t.len() == t.to_multiset().len());
    if s.len() > 0 {
        let x = s.last();
        let y = t.last();
        let n = s.len() - 1;
        assert(s[n] == x && t[n] == y);
        assert(s.contains(x) && t.contains(y));
        assert(t.to_multiset().count(x) > 0 && s.to_multiset().count(y) > 0);
        assert(t.contains(x) && s.contains(y));
        let i = choose|i: int| 0 <= i < s.len() && s[i] == y;
        let j = choose|j: int| 0 <= j < t.len() && t[j] == x;
        Entry::lemma_total(x, x);
        Entry::lemma_total(y, y);
        assert(i == n || s[i].leq(s[n]));
        assert(j == n || t[j].leq(t[n]));
        lemma_bytes_antisymmetric(x.name@, y.name@);
        let u = s.drop_last();
        let v = t.drop_last();
        assert(s == u.push(x) && t == v.push(x));
        assert(u.to_multiset() == s.to_multiset().remove(x)) by {
            assert(u.to_multiset().insert(x).remove(x) == u.to_multiset());
        }
        assert(v.to_multiset() == t.to_multiset().remove(x)) by {
            assert(v.to_multiset().insert(x).remove(x) == v.to_multiset());
        }
        assert forall|a: Entry, b: Entry| #[trigger] u.contains(a) && #[trigger] u.contains(b)
            && a.name@ == b.name@ implies a == b by {
            let p = choose|p: int| 0 <= p < u.len() && u[p] == a;
            let q = choose|q: int| 0 <= q < u.len() && u[q] == b;
            assert(s[p] == a && s[q] == b);
            assert(s.contains(a) && s.contains(b));
        }
        assert forall|a: int, b: int| 0 <= a < b < u.len() implies (#[trigger] u[a]).leq(
            #[trigger] u[b],
        ) by {
            assert(s[a].leq(s[b]));
        }
        assert forall|a: int, b: int| 0 <= a < b < v.len() implies (#[trigger] v[a]).leq(
            #[trigger] v[b],
        ) by {
            assert(t[a].leq(t[b]));
        }
        lemma_one_order(u, v);
    }
}

/// A walk does not depend on the order in which a directory is read: two listings
/// of the same entries take it the same way.
pub proof fn law_walk_is_deterministic(
    p: Progress,
    one: Seq<Entry>,
    other: Seq<Entry>,
    max_files: int,
)
    requires
        has_one_per_name(one),
        one.to_multiset() == other.to_multiset(),
    ensures
        advanced(p, one, max_files) == advanced(p, other, max_files),
{
    broadcast use vstd::seq_lib::group_to_multiset_ensures;

    law_arranged(one);
    law_arranged(other);
    assert forall|x: Entry, y: Entry|
        #[trigger] arranged(one).contains(x) && #[trigger] arranged(one).contains(y) && x.name@
            == y.name@ implies x == y by {
        assert(one.to_multiset().count(x) > 0 && one.to_multiset().count(y) > 0);
        assert(one.contains(x) && one.contains(y));
    }
    lemma_one_order(arranged(one), arranged(other));
}

// ---------------------------------------------------------------------------
// Whole walks
// ---------------------------------------------------------------------------
/// A walk after `n` steps over the tree in which `list` gives the listing of each
/// directory by its components.
pub open spec fn walked(
    list: spec_fn(Seq<Seq<u8>>) -> Seq<Entry>,
    max_files: int,
    n: nat,
) -> Progress
    decreases n,
{
    if n == 0 {
        beginning()
    } else {
        let p = walked(list, max_files, (n - 1) as nat);
        if is_over(p) {
            p
        } else {
            advanced(p, list(p.pending.last().parts), max_files)
        }
    }
}

/// A walk never visits more entries than its limit, counts each that it visits, and
/// is cut off only where it has visited that many.
pub proof fn law_walk_keeps_its_limit(
    list: spec_fn(Seq<Seq<u8>>) -> Seq<Entry>,
    max_files: int,
    n: nat,
)
    requires
        0 <= max_files,
    ensures
        ({
            let p = walked(list, max_files, n);
            &&& is_within(p, max_files)
            &&& count_entries(p.visits) <= max_files
            &&& p.truncated ==> count_entries(p.visits) == max_files
        }),
    decreases n,
{
    if n > 0 {
        law_walk_keeps_its_limit(list, max_files, (n - 1) as nat);
        let p = walked(list, max_files, (n - 1) as nat);
        if !is_over(p) {
            lemma_step_is_within(p, list(p.pending.last().parts), max_files);
        }
    }
}

/// The entries of all visited directories, one after the other.
pub open spec fn all_entries(visits: Seq<Visit>) -> Seq<Entry> {
    visits.map_values(|v: Visit| v.entries).flatten()
}

proof fn lemma_all_entries(visits: Seq<Visit>, v: Visit)
    ensures
        all_entries(visits.push(v)) == all_entries(visits) + v.entries,
{
    let f = |v: Visit| v.entries;
    let t = visits.push(v).map_values(f);
    t.lemma_flatten_and_flatten_alt_are_equivalent();
    t.drop_last().lemma_flatten_and_flatten_alt_are_equivalent();
    assert(t.drop_last() == visits.map_values(f));
    assert(t.last() == v.entries);
}

proof fn lemma_filter_concat(a: Seq<Entry>, b: Seq<Entry>)
    ensures
        (a + b).filter(|e: Entry| e.is_dir).len() == a.filter(|e: Entry| e.is_dir).len() + b.filter(
            |e: Entry| e.is_dir,
        ).len(),
    decreases b.len(),
{
    reveal(Seq::filter);
    if b.len() == 0 {
        assert(a + b == a);
    } else {
        assert((a + b).drop_last() == a + b.drop_last());
        assert((a + b).last() == b.last());
        lemma_filter_concat(a, b.drop_last());
    }
}

/// A walk counts the directories among the entries that it visits as directories, and
/// all others as files.
pub proof fn law_walk_counts(
    list: spec_fn(Seq<Seq<u8>>) -> Seq<Entry>,
    max_files: int,
    n: nat,
)
    ensures
        ({
            let p = walked(list, max_files, n);
            let seen = all_entries(p.visits);
            &&& p.dirs == seen.filter(|e: Entry| e.is_dir).len()
            &&& p.files == seen.len() - seen.filter(|e: Entry| e.is_dir).len()
        }),
    decreases n,
{
    let p = walked(list, max_files, n);
    if n == 0 {
        reveal(Seq::filter);
        assert(p.visits.map_values(|v: Visit| v.entries).len() == 0);
    } else {
        let q = walked(list, max_files, (n - 1) as nat);
        law_walk_counts(list, max_files, (n - 1) as nat);
        if !is_over(q) {
            let v = p.visits.last();
            assert(p.visits == q.visits.push(v));
            lemma_all_entries(q.visits, v);
            lemma_filter_concat(all_entries(q.visits), v.entries);
            law_directories_are_counted(v.entries);
        }
    }
}

/// A walk visits the entries of a directory in order, from the first on; all of them,
/// but for the last directory of a walk that was cut off.
pub proof fn law_walk_visits_in_order(
    list: spec_fn(Seq<Seq<u8>>) -> Seq<Entry>,
    max_files: int,
    n: nat,
    i: int,
)
    requires
        0 <= max_files,
        0 <= i < walked(list, max_files, n).visits.len(),
    ensures
        ({
            let p = walked(list, max_files, n);
            let v = p.visits[i];
            let whole = arranged(list(v.place.parts));
            &&& v.entries.len() <= whole.len()
            &&& v.entries == whole.take(v.entries.len() as int)
            &&& i < p.visits.len() - 1 || !p.truncated ==> v.entries == whole
        }),
    decreases n,
{
    let p = walked(list, max_files, n);
    if n > 0 {
        let q = walked(list, max_files, (n - 1) as nat);
        if is_over(q) {
            law_walk_visits_in_order(list, max_files, (n - 1) as nat, i);
        } else {
            law_walk_keeps_its_limit(list, max_files, (n - 1) as nat);
            let whole = arranged(list(p.visits[i].place.parts));
            if i < q.visits.len() {
                assert(p.visits[i] == q.visits[i]);
                law_walk_visits_in_order(list, max_files, (n - 1) as nat, i);
            } else {
                assert(whole.take(whole.len() as int) == whole);
            }
        }
    }
}

/// Does each name occur once, as in a directory?
pub open spec fn is_listing(entries: Seq<Entry>) -> bool {
    forall|i: int, j: int|
        0 <= i < j < entries.len() ==> #[trigger] entries[i].name@ != #[trigger] entries[j].name@
}

/// Is there a directory of that name to enter?
pub open spec fn has_subdir(entries: Seq<Entry>, name: Seq<u8>) -> bool {
    !is_git(name) && exists|i: int|
        0 <= i < entries.len() && (#[trigger] entries[i]).is_dir && entries[i].name@ == name
}

/// Is there a directory with these components, reached through directories that are
/// entered?
pub open spec fn is_reached(
    list: spec_fn(Seq<Seq<u8>>) -> Seq<Entry>,
    parts: Seq<Seq<u8>>,
) -> bool
    decreases parts.len(),
{
    parts.len() == 0 || (is_reached(list, parts.drop_last()) && has_subdir(
        list(parts.drop_last()),
        parts.last(),
    ))
}

/// Does the directory `a` come before `b` where a tree is gone through depth-first:
/// each directory before what is in it, and siblings by the bytes of their names?
pub open spec fn comes_before(a: Seq<Seq<u8>>, b: Seq<Seq<u8>>) -> bool {
    parts_leq(a, b) && a != b
}

/// Is `b` the directory `a` or in it?
pub open spec fn is_inside(b: Seq<Seq<u8>>, a: Seq<Seq<u8>>) -> bool {
    a.len() <= b.len() && b.take(a.len() as int) == a
}

proof fn lemma_before_transitive(a: Seq<Seq<u8>>, b: Seq<Seq<u8>>, c: Seq<Seq<u8>>)
    requires
        comes_before(a, b),
        comes_before(b, c),
    ensures
        comes_before(a, c),
{
    lemma_parts_transitive(a, b, c);
    if a == c {
        lemma_parts_antisymmetric(a, b);
    }
}

/// A directory comes before what is in it.
proof fn lemma_inside_is_later(a: Seq<Seq<u8>>, b: Seq<Seq<u8>>)
    requires
        is_inside(b, a),
        a != b,
    ensures
        comes_before(a, b),
    decreases a.len(),
{
    if a.len() > 0 {
        let x = a.skip(1);
        let y = b.skip(1);
        assert(b.take(a.len() as int)[0] == b[0]);
        assert(y.take(x.len() as int) == b.take(a.len() as int).skip(1));
        assert(a == seq![a[0]] + x);
        assert(b == seq![b[0]] + y);
        lemma_inside_is_later(x, y);
    }
}

/// Siblings are ordered by their names.
proof fn lemma_siblings(dir: Seq<Seq<u8>>, a: Seq<u8>, b: Seq<u8>)
    requires
        bytes_leq(a, b),
        a != b,
    ensures
        comes_before(dir.push(a), dir.push(b)),
    decreases dir.len(),
{
    let x = dir.push(a);
    let y = dir.push(b);
    assert(x.last() == a && y.last() == b);
    if dir.len() > 0 {
        lemma_siblings(dir.skip(1), a, b);
        assert(x.skip(1) == dir.skip(1).push(a));
        assert(y.skip(1) == dir.skip(1).push(b));
    }
}

/// What is in a directory comes before what comes behind the directory and is not
/// in it.
proof fn lemma_inside_stays_before(x: Seq<Seq<u8>>, z: Seq<Seq<u8>>, y: Seq<Seq<u8>>)
    requires
        comes_before(x, y),
        !is_inside(y, x),
        is_inside(z, x),
    ensures
        comes_before(z, y),
        !is_inside(y, z),
    decreases x.len(),
{
    if is_inside(y, z) {
        assert(y.take(z.len() as int).take(x.len() as int) == y.take(x.len() as int));
    }
    if x.len() == 0 {
        assert(y.take(0) == x);
    } else {
        assert(z.take(x.len() as int)[0] == z[0]);
        if x[0] == y[0] {
            let u = x.skip(1);
            let v = y.skip(1);
            let w = z.skip(1);
            assert(x == seq![x[0]] + u && y == seq![y[0]] + v);
            assert(w.take(u.len() as int) == z.take(x.len() as int).skip(1));
            if is_inside(v, u) {
                assert(y.take(x.len() as int) == x);
            }
            lemma_inside_stays_before(u, w, v);
            assert(z == seq![z[0]] + w);
            assert(z.skip(1) == w);
        }
    }
}

// ---------------------------------------------------------------------------
// One listing
// ---------------------------------------------------------------------------
/// Sorting a listing keeps each name once.
proof fn lemma_sorted_listing(entries: Seq<Entry>)
    requires
        is_listing(entries),
    ensures
        is_listing(arranged(entries)),
        forall|name: Seq<u8>|
            #[trigger] has_subdir(arranged(entries), name) == has_subdir(entries, name),
{
    broadcast use vstd::seq_lib::group_to_multiset_ensures;

    let s = arranged(entries);
    law_arranged(entries);
    assert(entries.no_duplicates()) by {
        assert forall|i: int, j: int|
            0 <= i < entries.len() && 0 <= j < entries.len() && i != j implies entries[i]
            != entries[j] by {
            if i < j {
                assert(entries[i].name@ != entries[j].name@);
            } else {
                assert(entries[j].name@ != entries[i].name@);
            }
        }
    }
    entries.lemma_multiset_has_no_duplicates();
    s.lemma_multiset_has_no_duplicates_conv();
    assert forall|e: Entry| #[trigger] s.contains(e) <==> entries.contains(e) by {
        assert(s.to_multiset().count(e) == entries.to_multiset().count(e));
    }
    assert forall|i: int, j: int| 0 <= i < j < s.len() implies #[trigger] s[i].name@
        != #[trigger] s[j].name@ by {
        assert(s.contains(s[i]) && s.contains(s[j]));
        let a = choose|a: int| 0 <= a < entries.len() && entries[a] == s[i];
        let b = choose|b: int| 0 <= b < entries.len() && entries[b] == s[j];
        assert(a != b);
        if a < b {
            assert(entries[a].name@ != entries[b].name@);
        } else {
            assert(entries[b].name@ != entries[a].name@);
        }
    }
    assert forall|name: Seq<u8>|
        #[trigger] has_subdir(s, name) == has_subdir(entries, name) by {
        if has_subdir(s, name) {
            let i = choose|i: int| 0 <= i < s.len() && (#[trigger] s[i]).is_dir && s[i].name@ == name;
            assert(s.contains(s[i]));
            let a = choose|a: int| 0 <= a < entries.len() && entries[a] == s[i];
            assert(entries[a].is_dir);
        }
        if has_subdir(entries, name) {
            let a = choose|a: int|
                0 <= a < entries.len() && (#[trigger] entries[a]).is_dir && entries[a].name@ == name;
            assert(entries.contains(entries[a]));
            assert(s.contains(entries[a]));
            let i = choose|i: int| 0 <= i < s.len() && s[i] == entries[a];
            assert(s[i].is_dir);
        }
    }
}

/// The directories to visit, in the order of their names.
proof fn lemma_children(place: Place, entries: Seq<Entry>)
    requires
        is_listing(entries),
        is_ascending(entries),
    ensures
        ({
            let c = children(place, entries);
            &&& forall|i: int|
                0 <= i < c.len() ==> {
                    let name = (#[trigger] c[i]).parts.last();
                    &&& c[i].parts == place.parts.push(name)
                    &&& c[i].rel == path_in(place.rel, name)
                    &&& has_subdir(entries, name)
                }
            &&& forall|i: int, j: int|
                0 <= i < j < c.len() ==> comes_before(
                    (#[trigger] c[i]).parts,
                    (#[trigger] c[j]).parts,
                )
            &&& forall|name: Seq<u8>| #[trigger]
                has_subdir(entries, name) ==> exists|i: int|
                    0 <= i < c.len() && (#[trigger] c[i]).parts == place.parts.push(name)
        }),
    decreases entries.len(),
{
    if entries.len() > 0 {
        let u = entries.drop_last();
        let e = entries.last();
        assert(is_listing(u)) by {
            assert forall|i: int, j: int| 0 <= i < j < u.len() implies #[trigger] u[i].name@
                != #[trigger] u[j].name@ by {
                assert(entries[i].name@ != entries[j].name@);
            }
        }
        assert(is_ascending(u)) by {
            assert forall|i: int, j: int| 0 <= i < j < u.len() implies (#[trigger] u[i]).leq(
                #[trigger] u[j],
            ) by {
                assert(entries[i].leq(entries[j]));
            }
        }
        lemma_children(place, u);
        let b = children(place, u);
        let c = children(place, entries);
        assert forall|name: Seq<u8>| #[trigger] has_subdir(u, name) implies has_subdir(
            entries,
            name,
        ) by {
            let i = choose|i: int| 0 <= i < u.len() && (#[trigger] u[i]).is_dir && u[i].name@ == name;
            assert(entries[i].is_dir);
        }
        if e.is_dir && !is_git(e.name@) {
            let last = place.parts.push(e.name@);
            assert(last.last() == e.name@);
            assert(entries[entries.len() - 1].is_dir);
            assert(has_subdir(entries, e.name@));
            assert forall|i: int| 0 <= i < b.len() implies comes_before(
                (#[trigger] b[i]).parts,
                last,
            ) by {
                let name = b[i].parts.last();
                assert(has_subdir(u, name));
                let k = choose|k: int|
                    0 <= k < u.len() && (#[trigger] u[k]).is_dir && u[k].name@ == name;
                assert(entries[k].leq(entries[entries.len() - 1]));
                assert(entries[k].name@ != entries[entries.len() - 1].name@);
                lemma_siblings(place.parts, name, e.name@);
            }
        }
        assert forall|name: Seq<u8>| #[trigger] has_subdir(entries, name) implies exists|i: int|
            0 <= i < c.len() && (#[trigger] c[i]).parts == place.parts.push(name) by {
            let k = choose|k: int|
                0 <= k < entries.len() && (#[trigger] entries[k]).is_dir && entries[k].name@ == name;
            if k < u.len() {
                assert(u[k].is_dir);
                assert(has_subdir(u, name));
                let i = choose|i: int|
                    0 <= i < b.len() && (#[trigger] b[i]).parts == place.parts.push(name);
                assert(c[i] == b[i]);
            } else {
                assert(c[b.len() as int].parts == place.parts.push(name));
            }
        }
    }
}

// ---------------------------------------------------------------------------
// Order
// ---------------------------------------------------------------------------
/// Are the visited directories of the tree, in order?
spec fn is_visited_in_order(list: spec_fn(Seq<Seq<u8>>) -> Seq<Entry>, visits: Seq<Visit>) -> bool {
    &&& forall|i: int|
        0 <= i < visits.len() ==> {
            let v = #[trigger] visits[i];
            &&& is_reached(list, v.place.parts)
            &&& v.place.rel == display_path(v.place.parts)
            &&& v.entries == arranged(list(v.place.parts))
        }
    &&& forall|i: int, j: int|
        0 <= i < j < visits.len() ==> comes_before(
            (#[trigger] visits[i]).place.parts,
            (#[trigger] visits[j]).place.parts,
        )
}

/// Are the pending directories of the tree, the next last, and apart?
spec fn is_pending_in_order(
    list: spec_fn(Seq<Seq<u8>>) -> Seq<Entry>,
    pending: Seq<Place>,
) -> bool {
    &&& forall|i: int|
        0 <= i < pending.len() ==> is_reached(list, (#[trigger] pending[i]).parts)
            && pending[i].rel == display_path(pending[i].parts)
    &&& forall|i: int, j: int|
        0 <= i < j < pending.len() ==> comes_before(
            (#[trigger] pending[j]).parts,
            (#[trigger] pending[i]).parts,
        ) && !is_inside(pending[i].parts, pending[j].parts)
}

/// Is a directory visited, or in one that is pending?
spec fn is_covered(p: Progress, parts: Seq<Seq<u8>>) -> bool {
    ||| exists|i: int| 0 <= i < p.visits.len() && (#[trigger] p.visits[i]).place.parts == parts
    ||| exists|i: int|
        0 <= i < p.pending.len() && is_inside(parts, (#[trigger] p.pending[i]).parts)
}

/// Is the walk in order, with nothing of the tree left out?
spec fn is_orderly(list: spec_fn(Seq<Seq<u8>>) -> Seq<Entry>, p: Progress) -> bool {
    &&& is_visited_in_order(list, p.visits)
    &&& is_pending_in_order(list, p.pending)
    &&& forall|i: int, j: int|
        0 <= i < p.visits.len() && 0 <= j < p.pending.len() ==> comes_before(
            (#[trigger] p.visits[i]).place.parts,
            (#[trigger] p.pending[j]).parts,
        )
    &&& forall|parts: Seq<Seq<u8>>| #[trigger] is_reached(list, parts) ==> is_covered(p, parts)
}

proof fn lemma_beginning(list: spec_fn(Seq<Seq<u8>>) -> Seq<Entry>)
    ensures
        is_orderly(list, beginning()),
{
    let p = beginning();
    assert(p.pending[0].parts.len() == 0);
    assert forall|parts: Seq<Seq<u8>>| #[trigger] is_reached(list, parts) implies is_covered(
        p,
        parts,
    ) by {
        assert(parts.take(0) == p.pending[0].parts);
        assert(is_inside(parts, p.pending[0].parts));
    }
}

/// The pending directories after a step.
proof fn lemma_step_pending(
    list: spec_fn(Seq<Seq<u8>>) -> Seq<Entry>,
    p: Progress,
    c: Seq<Place>,
    q: Seq<Place>,
)
    requires
        is_pending_in_order(list, p.pending),
        p.pending.len() > 0,
        q == p.pending.drop_last() + c.reverse(),
        forall|i: int|
            0 <= i < c.len() ==> {
                let name = (#[trigger] c[i]).parts.last();
                &&& c[i].parts == p.pending.last().parts.push(name)
                &&& c[i].rel == path_in(p.pending.last().rel, name)
                &&& has_subdir(list(p.pending.last().parts), name)
            },
        forall|i: int, j: int|
            0 <= i < j < c.len() ==> comes_before((#[trigger] c[i]).parts, (#[trigger] c[j]).parts),
    ensures
        is_pending_in_order(list, q),
        forall|i: int| 0 <= i < q.len() ==> comes_before(p.pending.last().parts, (#[trigger] q[i]).parts),
{
    let rest = p.pending.drop_last();
    let m = rest.len() as int;
    let x = p.pending.last();
    assert(p.pending[m] == x);
    assert forall|i: int| 0 <= i < c.len() implies is_reached(list, (#[trigger] c[i]).parts)
        && c[i].rel == display_path(c[i].parts) && is_inside(c[i].parts, x.parts) && comes_before(
        x.parts,
        c[i].parts,
    ) by {
        let parts = c[i].parts;
        assert(parts.drop_last() == x.parts);
        assert(parts.take(x.parts.len() as int) == x.parts);
        lemma_inside_is_later(x.parts, parts);
    }
    assert forall|i: int| 0 <= i < q.len() implies is_reached(list, (#[trigger] q[i]).parts)
        && q[i].rel == display_path(q[i].parts) && comes_before(x.parts, q[i].parts) by {
        if i < m {
            assert(q[i] == p.pending[i]);
            assert(comes_before(p.pending[m].parts, p.pending[i].parts));
        } else {
            assert(q[i] == c[c.len() - 1 - (i - m)]);
        }
    }
    assert forall|i: int, j: int| 0 <= i < j < q.len() implies comes_before(
        (#[trigger] q[j]).parts,
        (#[trigger] q[i]).parts,
    ) && !is_inside(q[i].parts, q[j].parts) by {
        if j < m {
            assert(q[i] == p.pending[i] && q[j] == p.pending[j]);
        } else {
            let b = c.len() - 1 - (j - m);
            assert(q[j] == c[b]);
            if i < m {
                assert(q[i] == p.pending[i]);
                assert(comes_before(p.pending[m].parts, p.pending[i].parts));
                lemma_inside_stays_before(x.parts, c[b].parts, p.pending[i].parts);
            } else {
                let a = c.len() - 1 - (i - m);
                assert(q[i] == c[a]);
                assert(comes_before(c[b].parts, c[a].parts));
                assert(c[a].parts.len() == c[b].parts.len());
                if is_inside(c[a].parts, c[b].parts) {
                    assert(c[a].parts.take(c[a].parts.len() as int) == c[a].parts);
                }
            }
        }
    }
}

/// Nothing is left out by a step.
proof fn lemma_step_covers(
    list: spec_fn(Seq<Seq<u8>>) -> Seq<Entry>,
    p: Progress,
    q: Progress,
    c: Seq<Place>,
    parts: Seq<Seq<u8>>,
)
    requires
        p.pending.len() > 0,
        q.pending == p.pending.drop_last() + c.reverse(),
        q.visits.len() == p.visits.len() + 1,
        q.visits.drop_last() == p.visits,
        q.visits.last().place == p.pending.last(),
        forall|name: Seq<u8>| #[trigger]
            has_subdir(list(p.pending.last().parts), name) ==> exists|i: int|
                0 <= i < c.len() && (#[trigger] c[i]).parts == p.pending.last().parts.push(name),
        is_reached(list, parts),
        is_covered(p, parts),
    ensures
        is_covered(q, parts),
{
    let x = p.pending.last().parts;
    let m = p.pending.len() - 1;
    if exists|i: int| 0 <= i < p.visits.len() && (#[trigger] p.visits[i]).place.parts == parts {
        let i = choose|i: int|
            0 <= i < p.visits.len() && (#[trigger] p.visits[i]).place.parts == parts;
        assert(q.visits[i] == p.visits[i]);
    } else {
        let i = choose|i: int|
            0 <= i < p.pending.len() && is_inside(parts, (#[trigger] p.pending[i]).parts);
        if i < m {
            assert(q.pending[i] == p.pending[i]);
        } else if parts == x {
            assert(q.visits[q.visits.len() - 1].place.parts == parts);
        } else {
            let head = parts.take(x.len() as int + 1);
            if parts.len() == x.len() {
                assert(parts.take(x.len() as int) == parts);
            }
            lemma_reached_prefix(list, parts, x.len() as int + 1);
            assert(head.drop_last() == parts.take(x.len() as int));
            assert(has_subdir(list(x), head.last()));
            let k = choose|k: int|
                0 <= k < c.len() && (#[trigger] c[k]).parts == x.push(head.last());
            assert(head == x.push(head.last()));
            let at = m + (c.len() - 1 - k);
            assert(q.pending[at] == c[k]);
            assert(is_inside(parts, q.pending[at].parts));
        }
    }
}

/// What is reached is reached through directories that are.
proof fn lemma_reached_prefix(
    list: spec_fn(Seq<Seq<u8>>) -> Seq<Entry>,
    parts: Seq<Seq<u8>>,
    k: int,
)
    requires
        is_reached(list, parts),
        0 <= k <= parts.len(),
    ensures
        is_reached(list, parts.take(k)),
    decreases parts.len(),
{
    if k == parts.len() {
        assert(parts.take(k) == parts);
    } else {
        lemma_reached_prefix(list, parts.drop_last(), k);
        assert(parts.drop_last().take(k) == parts.take(k));
    }
}

proof fn lemma_step(list: spec_fn(Seq<Seq<u8>>) -> Seq<Entry>, p: Progress, max_files: int)
    requires
        forall|parts: Seq<Seq<u8>>| is_listing(#[trigger] list(parts)),
        is_orderly(list, p),
        !is_over(p),
        !advanced(p, list(p.pending.last().parts), max_files).truncated,
    ensures
        is_orderly(list, advanced(p, list(p.pending.last().parts), max_files)),
{
    let x = p.pending.last();
    let m = p.pending.len() - 1;
    assert(p.pending[m] == x);
    let entries = arranged(list(x.parts));
    let q = advanced(p, list(x.parts), max_files);
    assert(visited(entries, max_files - p.files - p.dirs) == entries);
    assert(is_listing(list(x.parts)));
    law_arranged(list(x.parts));
    lemma_sorted_listing(list(x.parts));
    lemma_children(x, entries);
    let c = children(x, entries);
    assert forall|i: int| 0 <= i < c.len() implies has_subdir(
        list(x.parts),
        (#[trigger] c[i]).parts.last(),
    ) by {
        assert(has_subdir(entries, c[i].parts.last()));
    }
    lemma_step_pending(list, p, c, q.pending);
    assert(q.visits.drop_last() == p.visits);
    assert forall|name: Seq<u8>| #[trigger] has_subdir(list(x.parts), name) implies exists|i: int|
        0 <= i < c.len() && (#[trigger] c[i]).parts == x.parts.push(name) by {
        assert(has_subdir(entries, name));
    }
    assert forall|parts: Seq<Seq<u8>>| #[trigger] is_reached(list, parts) implies is_covered(
        q,
        parts,
    ) by {
        lemma_step_covers(list, p, q, c, parts);
    }
    assert forall|i: int, j: int|
        0 <= i < q.visits.len() && 0 <= j < q.pending.len() implies comes_before(
        (#[trigger] q.visits[i]).place.parts,
        (#[trigger] q.pending[j]).parts,
    ) by {
        if i < p.visits.len() {
            assert(q.visits[i] == p.visits[i]);
            assert(comes_before(p.visits[i].place.parts, p.pending[m].parts));
            lemma_before_transitive(p.visits[i].place.parts, x.parts, q.pending[j].parts);
        }
    }
    assert(is_visited_in_order(list, q.visits)) by {
        assert forall|i: int, j: int| 0 <= i < j < q.visits.len() implies comes_before(
            (#[trigger] q.visits[i]).place.parts,
            (#[trigger] q.visits[j]).place.parts,
        ) by {
            assert(q.visits[i] == p.visits[i]);
            if j < p.visits.len() {
                assert(q.visits[j] == p.visits[j]);
            } else {
                assert(comes_before(p.visits[i].place.parts, p.pending[m].parts));
            }
        }
        assert forall|i: int| 0 <= i < q.visits.len() implies {
            let v = #[trigger] q.visits[i];
            &&& is_reached(list, v.place.parts)
            &&& v.place.rel == display_path(v.place.parts)
            &&& v.entries == arranged(list(v.place.parts))
        } by {
            if i < p.visits.len() {
                assert(q.visits[i] == p.visits[i]);
            }
        }
    }
}

proof fn lemma_walked(list: spec_fn(Seq<Seq<u8>>) -> Seq<Entry>, max_files: int, n: nat)
    requires
        forall|parts: Seq<Seq<u8>>| is_listing(#[trigger] list(parts)),
        !walked(list, max_files, n).truncated,
    ensures
        is_orderly(list, walked(list, max_files, n)),
    decreases n,
{
    if n == 0 {
        lemma_beginning(list);
    } else {
        let p = walked(list, max_files, (n - 1) as nat);
        lemma_walked(list, max_files, (n - 1) as nat);
        if !is_over(p) {
            lemma_step(list, p, max_files);
        }
    }
}

/// A walk that is over and was not cut off has visited the whole tree: each
/// directory that is reached through directories that are entered, once, depth-first
/// and by the bytes of the names, with all its entries in order.
pub proof fn law_walk_is_complete(
    list: spec_fn(Seq<Seq<u8>>) -> Seq<Entry>,
    max_files: int,
    n: nat,
)
    requires
        forall|parts: Seq<Seq<u8>>| is_listing(#[trigger] list(parts)),
        is_over(walked(list, max_files, n)),
        !walked(list, max_files, n).truncated,
    ensures
        ({
            let visits = walked(list, max_files, n).visits;
            &&& forall|parts: Seq<Seq<u8>>| #[trigger]
                is_reached(list, parts) <==> exists|i: int|
                    0 <= i < visits.len() && (#[trigger] visits[i]).place.parts == parts
            &&& forall|i: int, j: int|
                0 <= i < j < visits.len() ==> comes_before(
                    (#[trigger] visits[i]).place.parts,
                    (#[trigger] visits[j]).place.parts,
                )
            &&& forall|i: int|
                0 <= i < visits.len() ==> (#[trigger] visits[i]).place.rel == display_path(
                    visits[i].place.parts,
                ) && visits[i].entries == arranged(list(visits[i].place.parts))
        }),
{
    lemma_walked(list, max_files, n);
    let p = walked(list, max_files, n);
    assert forall|parts: Seq<Seq<u8>>| #[trigger] is_reached(list, parts) implies exists|i: int|
        0 <= i < p.visits.len() && (#[trigger] p.visits[i]).place.parts == parts by {
        assert(is_covered(p, parts));
    }
}

/// A walk is cut short if, and only if, the directory that it comes to has more entries
/// than it takes; and it takes the first of them in order, as many as there is room for.
pub proof fn law_walks_are_cut_at_the_limit(p: Progress, listing: Seq<Entry>, max_files: int)
    requires
        is_within(p, max_files),
        !is_over(p),
    ensures
        ({
            let q = advanced(p, listing, max_files);
            let taken = q.visits.last().entries;
            &&& q.truncated <==> taken.len() < listing.len()
            &&& q.truncated ==> q.files + q.dirs == max_files
            &&& taken == arranged(listing).take(taken.len() as int)
            &&& q.files + q.dirs - p.files - p.dirs == taken.len()
        }),
{
    law_arranged(listing);
}

} // verus!
