//! What scans of path lists satisfy: each name is checked once, and a selection
//! only leaves findings out.

use vstd::prelude::*;

use crate::checks::{at_most_one, clashes, component_notes, path_note, Clash, Note};
use crate::engine::{
    bound, clash_reports, group_reports, listing_reports, name_reports, names_reports,
    path_list_reports, Report, Selection,
};
use crate::order::{
    arranged, bytes_leq, is_ascending, law_arranged, lemma_bytes_antisymmetric,
    lemma_lex_transitive, lemma_parts_antisymmetric, lemma_parts_transitive, numbers, parts_leq,
    put, Ranked,
};
use crate::paths::{components, display_path, groups, path_groups, path_spots, spots, Group, Spot};
use crate::rules::{row, CHECK_COUNT};
use crate::scan_laws::runs_all;
use crate::unicode::utf16_units;
use crate::walker::path_in;

verus! {

// ---------------------------------------------------------------------------
// Groups
// ---------------------------------------------------------------------------
/// Is `name` listed in the directory `dir`?
pub open spec fn is_member(g: Seq<Group>, dir: Seq<Seq<u8>>, name: Seq<u8>) -> bool {
    exists|a: int, b: int|
        0 <= a < g.len() && 0 <= b < g[a].names.len() && g[a].dir == dir
            && #[trigger] g[a].names[b] == name
}

/// Is each directory listed once, and each name in it once, in ascending order?
pub open spec fn is_distinct(g: Seq<Group>) -> bool {
    &&& forall|a: int, b: int|
        0 <= a < b < g.len() ==> (#[trigger] g[a]).dir != (#[trigger] g[b]).dir && parts_leq(
            g[a].dir,
            g[b].dir,
        )
    &&& forall|a: int, i: int, j: int|
        0 <= a < g.len() && 0 <= i < j < g[a].names.len() ==> #[trigger] g[a].names[i]
            != #[trigger] g[a].names[j] && bytes_leq(g[a].names[i], g[a].names[j])
}

proof fn lemma_groups(s: Seq<Spot>)
    requires
        is_ascending(s),
    ensures
        is_distinct(groups(s)),
        groups(s).len() > 0 <==> s.len() > 0,
        forall|a: int| 0 <= a < groups(s).len() ==> (#[trigger] groups(s)[a]).names.len() > 0,
        s.len() > 0 ==> groups(s).last().dir == s.last().dir && groups(s).last().names.last()
            == s.last().name,
        forall|d: Seq<Seq<u8>>, n: Seq<u8>|
            #![trigger is_member(groups(s), d, n)]
            is_member(groups(s), d, n) <==> s.contains(Spot { dir: d, name: n }),
    decreases s.len(),
{
    if s.len() == 0 {
        assert(groups(s).len() == 0);
    } else {
        let u = s.drop_last();
        let x = s.last();
        assert forall|i: int, j: int| 0 <= i < j < u.len() implies (#[trigger] u[i]).leq(
            #[trigger] u[j],
        ) by {
            assert(s[i].leq(s[j]));
        }
        lemma_groups(u);
        let g = groups(u);
        let h = groups(s);
        let n = g.len() as int;
        if n > 0 {
            assert(s[s.len() - 2].leq(s[s.len() - 1]));
            assert(u.last() == s[s.len() - 2]);
        }
        if n > 0 && g.last().dir == x.dir {
            let old = g.last().names;
            if old.last() == x.name {
                assert(h == g);
            } else {
                let new = old.push(x.name);
                assert(h == g.drop_last().push(Group { dir: x.dir, names: new }));
                assert forall|i: int, j: int| 0 <= i < j < new.len() implies #[trigger] new[i]
                    != #[trigger] new[j] && bytes_leq(new[i], new[j]) by {
                    if j < old.len() {
                        assert(g[n - 1].names[i] != g[n - 1].names[j]);
                    } else {
                        let m = old.len() - 1;
                        if i < m {
                            assert(g[n - 1].names[i] != g[n - 1].names[m]);
                            lemma_lex_transitive(
                                numbers(old[i]),
                                numbers(old[m]),
                                numbers(x.name),
                            );
                            if old[i] == x.name {
                                lemma_bytes_antisymmetric(old[i], old[m]);
                            }
                        }
                    }
                }
                assert forall|a: int, i: int, j: int|
                    0 <= a < h.len() && 0 <= i < j < h[a].names.len() implies #[trigger] h[a].names[i]
                    != #[trigger] h[a].names[j] && bytes_leq(h[a].names[i], h[a].names[j]) by {
                    if a < n - 1 {
                        assert(h[a] == g[a]);
                        assert(g[a].names[i] != g[a].names[j]);
                    } else {
                        assert(a == n - 1);
                        assert(h[a].names == new);
                        assert(new[i] != new[j] && bytes_leq(new[i], new[j]));
                    }
                }
                assert forall|a: int, b: int| 0 <= a < b < h.len() implies (#[trigger] h[a]).dir
                    != (#[trigger] h[b]).dir && parts_leq(h[a].dir, h[b].dir) by {
                    assert(h[a] == g[a]);
                    assert(h[b].dir == g[b].dir);
                }
            }
        } else {
            let new = Group { dir: x.dir, names: seq![x.name] };
            assert(h == g.push(new));
            assert forall|a: int, b: int| 0 <= a < b < h.len() implies (#[trigger] h[a]).dir != (
            #[trigger] h[b]).dir && parts_leq(h[a].dir, h[b].dir) by {
                if b < n {
                    assert(g[a].dir != g[b].dir);
                } else {
                    if a < n - 1 {
                        assert(g[a].dir != g[n - 1].dir);
                        lemma_parts_transitive(g[a].dir, g[n - 1].dir, x.dir);
                        if g[a].dir == x.dir {
                            lemma_parts_antisymmetric(g[a].dir, g[n - 1].dir);
                        }
                    }
                }
            }
            assert forall|a: int, i: int, j: int|
                0 <= a < h.len() && 0 <= i < j < h[a].names.len() implies #[trigger] h[a].names[i]
                != #[trigger] h[a].names[j] && bytes_leq(h[a].names[i], h[a].names[j]) by {
                assert(a < n);
                assert(h[a] == g[a]);
                assert(g[a].names[i] != g[a].names[j]);
            }
        }
        lemma_members(g, h, x);
        assert forall|d: Seq<Seq<u8>>, m: Seq<u8>|
            #![trigger is_member(h, d, m)]
            is_member(h, d, m) <==> s.contains(Spot { dir: d, name: m }) by {
            let p = Spot { dir: d, name: m };
            assert(is_member(g, d, m) <==> u.contains(p));
            if s.contains(p) {
                let i = choose|i: int| 0 <= i < s.len() && s[i] == p;
                if i < u.len() {
                    assert(u[i] == p);
                }
            }
            if u.contains(p) {
                let i = choose|i: int| 0 <= i < u.len() && u[i] == p;
                assert(s[i] == p);
            }
            assert(s[s.len() - 1] == x);
        }
    }
}

/// Taking a spot in adds it and nothing else.
proof fn lemma_members(g: Seq<Group>, h: Seq<Group>, x: Spot)
    requires
        forall|a: int| 0 <= a < g.len() ==> (#[trigger] g[a]).names.len() > 0,
        h == if g.len() > 0 && g.last().dir == x.dir {
            if g.last().names.last() == x.name {
                g
            } else {
                g.drop_last().push(Group { dir: x.dir, names: g.last().names.push(x.name) })
            }
        } else {
            g.push(Group { dir: x.dir, names: seq![x.name] })
        },
    ensures
        forall|d: Seq<Seq<u8>>, m: Seq<u8>|
            #![trigger is_member(h, d, m)]
            is_member(h, d, m) <==> is_member(g, d, m) || (d == x.dir && m == x.name),
{
    let n = g.len() as int;
    assert forall|d: Seq<Seq<u8>>, m: Seq<u8>|
        #![trigger is_member(h, d, m)]
        is_member(h, d, m) <==> is_member(g, d, m) || (d == x.dir && m == x.name) by {
        if is_member(g, d, m) {
            let (a, b) = choose|a: int, b: int|
                0 <= a < g.len() && 0 <= b < g[a].names.len() && g[a].dir == d
                    && #[trigger] g[a].names[b] == m;
            assert(h[a].names[b] == m);
        }
        if is_member(h, d, m) {
            let (a, b) = choose|a: int, b: int|
                0 <= a < h.len() && 0 <= b < h[a].names.len() && h[a].dir == d
                    && #[trigger] h[a].names[b] == m;
            if a < n && b < g[a].names.len() {
                assert(g[a].names[b] == m);
            }
        }
        if d == x.dir && m == x.name {
            let last = h.len() - 1;
            let end = h[last].names.len() - 1;
            assert(h[last].names[end] == m);
        }
    }
}

/// Every name that a list of paths passes through is checked once: the groups hold
/// each directory once, with each of its names once, and nothing else.
pub proof fn law_names_are_checked_once(paths: Seq<Seq<u8>>)
    ensures
        is_distinct(path_groups(paths)),
        forall|d: Seq<Seq<u8>>, n: Seq<u8>|
            #![trigger is_member(path_groups(paths), d, n)]
            is_member(path_groups(paths), d, n) <==> spots(paths, paths.len() as int).contains(
                Spot { dir: d, name: n },
            ),
{
    broadcast use vstd::seq_lib::group_to_multiset_ensures;

    let all = spots(paths, paths.len() as int);
    law_arranged(all);
    lemma_groups(arranged(all));
    assert forall|p: Spot| #[trigger] arranged(all).contains(p) <==> all.contains(p) by {
        assert(arranged(all).to_multiset().count(p) == all.to_multiset().count(p));
    }
}

// ---------------------------------------------------------------------------
// Selections
// ---------------------------------------------------------------------------
/// The reports that `p` holds of.
pub open spec fn kept(s: Seq<Report>, p: spec_fn(Report) -> bool) -> Seq<Report>
    decreases s.len(),
{
    if s.len() == 0 {
        seq![]
    } else if p(s.last()) {
        kept(s.drop_last(), p).push(s.last())
    } else {
        kept(s.drop_last(), p)
    }
}

proof fn lemma_kept_concat(a: Seq<Report>, b: Seq<Report>, p: spec_fn(Report) -> bool)
    ensures
        kept(a + b, p) == kept(a, p) + kept(b, p),
    decreases b.len(),
{
    if b.len() == 0 {
        assert(a + b == a);
        assert(kept(a, p) + kept(b, p) == kept(a, p));
    } else {
        assert((a + b).drop_last() == a + b.drop_last());
        lemma_kept_concat(a, b.drop_last(), p);
        assert(kept(a + b, p) == kept(a, p) + kept(b, p));
    }
}

proof fn lemma_kept_push(s: Seq<Report>, x: Report, p: spec_fn(Report) -> bool)
    ensures
        kept(s.push(x), p) == if p(x) {
            kept(s, p).push(x)
        } else {
            kept(s, p)
        },
{
    assert(s.push(x).drop_last() == s);
}

/// What is kept last does not rank behind the last of all.
proof fn lemma_kept_last(s: Seq<Report>, p: spec_fn(Report) -> bool, y: Report)
    requires
        forall|i: int| 0 <= i < s.len() ==> (#[trigger] s[i]).leq(y),
        kept(s, p).len() > 0,
    ensures
        kept(s, p).last().leq(y),
    decreases s.len(),
{
    let u = s.drop_last();
    assert(s[s.len() - 1].leq(y));
    if !p(s.last()) {
        assert forall|i: int| 0 <= i < u.len() implies (#[trigger] u[i]).leq(y) by {
            assert(u[i] == s[i]);
        }
        lemma_kept_last(u, p, y);
    }
}

proof fn lemma_kept_put(s: Seq<Report>, x: Report, p: spec_fn(Report) -> bool)
    requires
        is_ascending(s),
    ensures
        kept(put(s, x), p) == if p(x) {
            put(kept(s, p), x)
        } else {
            kept(s, p)
        },
    decreases s.len(),
{
    if s.len() > 0 && !s.last().leq(x) {
        let u = s.drop_last();
        let l = s.last();
        assert forall|i: int, j: int| 0 <= i < j < u.len() implies (#[trigger] u[i]).leq(
            #[trigger] u[j],
        ) by {
            assert(s[i].leq(s[j]));
        }
        lemma_kept_put(u, x, p);
        lemma_kept_push(put(u, x), l, p);
        let t = kept(u, p);
        assert(t.push(l).drop_last() == t);
    } else {
        lemma_kept_push(s, x, p);
        assert forall|i: int| 0 <= i < s.len() implies (#[trigger] s[i]).leq(x) by {
            if i < s.len() - 1 {
                assert(s[i].leq(s[s.len() - 1]));
                Report::lemma_transitive(s[i], s.last(), x);
            }
        }
        if kept(s, p).len() > 0 {
            lemma_kept_last(s, p, x);
        }
    }
}

proof fn lemma_kept_arranged(s: Seq<Report>, p: spec_fn(Report) -> bool)
    ensures
        kept(arranged(s), p) == arranged(kept(s, p)),
    decreases s.len(),
{
    if s.len() > 0 {
        let u = s.drop_last();
        lemma_kept_arranged(u, p);
        law_arranged(u);
        lemma_kept_put(arranged(u), s.last(), p);
        if p(s.last()) {
            let t = kept(u, p);
            assert(t.push(s.last()).drop_last() == t);
        }
    } else {
        assert(kept(s, p) == s);
    }
}

/// Is a report of a selected check?
pub open spec fn is_chosen(sel: Selection) -> spec_fn(Report) -> bool {
    |r: Report| sel.runs_id(r.check.id)
}

/// The reports of selected checks.
pub open spec fn picked(s: Seq<Report>, sel: Selection) -> Seq<Report> {
    kept(s, is_chosen(sel))
}

proof fn lemma_picked_bound(path: Seq<char>, notes: Seq<Note>, all: Selection, sel: Selection)
    requires
        runs_all(all),
    ensures
        bound(path, notes, sel) == picked(bound(path, notes, all), sel),
    decreases notes.len(),
{
    if notes.len() > 0 {
        let n = notes.last();
        lemma_picked_bound(path, notes.drop_last(), all, sel);
        if sel.runs_id(n.check.id) {
            let k = choose|k: int|
                0 <= k < CHECK_COUNT && #[trigger] row(k).id == n.check.id && sel.runs(k);
            assert(all.runs(k));
            assert(all.runs_id(n.check.id));
        }
        lemma_kept_push(
            bound(path, notes.drop_last(), all),
            Report { path, check: n.check, message: n.message, fix: n.fix },
            is_chosen(sel),
        );
    }
}

proof fn lemma_picked_names(
    dir: Seq<char>,
    names: Seq<Seq<u8>>,
    all: Selection,
    sel: Selection,
    k: int,
)
    requires
        runs_all(all),
        all.max_path == sel.max_path,
    ensures
        names_reports(dir, names, sel, k) == picked(names_reports(dir, names, all, k), sel),
    decreases k,
{
    if k > 0 {
        lemma_picked_names(dir, names, all, sel, k - 1);
        let name = names[k - 1];
        let path = path_in(dir, name);
        let length = at_most_one(path_note(path, sel.max_path as nat));
        lemma_picked_bound(path, component_notes(name), all, sel);
        lemma_picked_bound(path, length, all, sel);
        let a = bound(path, component_notes(name), all);
        let b = if utf16_units(dir) <= all.max_path {
            bound(path, length, all)
        } else {
            seq![]
        };
        lemma_kept_concat(a, b, is_chosen(sel));
        lemma_kept_concat(
            names_reports(dir, names, all, k - 1),
            name_reports(dir, name, all),
            is_chosen(sel),
        );
    }
}

proof fn lemma_picked_clashes(
    dir: Seq<char>,
    names: Seq<Seq<u8>>,
    hits: Seq<Clash>,
    all: Selection,
    sel: Selection,
)
    requires
        runs_all(all),
    ensures
        clash_reports(dir, names, hits, sel) == picked(clash_reports(dir, names, hits, all), sel),
    decreases hits.len(),
{
    if hits.len() > 0 {
        let h = hits.last();
        lemma_picked_clashes(dir, names, hits.drop_last(), all, sel);
        let path = path_in(dir, names[h.index]);
        lemma_picked_bound(path, seq![h.note], all, sel);
        lemma_kept_concat(
            clash_reports(dir, names, hits.drop_last(), all),
            bound(path, seq![h.note], all),
            is_chosen(sel),
        );
    }
}

proof fn lemma_picked_listing(
    dir: Seq<char>,
    names: Seq<Seq<u8>>,
    all: Selection,
    sel: Selection,
)
    requires
        runs_all(all),
        all.max_path == sel.max_path,
    ensures
        listing_reports(dir, names, sel) == picked(listing_reports(dir, names, all), sel),
{
    let n = names.len() as int;
    lemma_picked_names(dir, names, all, sel, n);
    lemma_picked_clashes(dir, names, clashes(names, n), all, sel);
    lemma_kept_concat(
        names_reports(dir, names, all, n),
        clash_reports(dir, names, clashes(names, n), all),
        is_chosen(sel),
    );
}

proof fn lemma_picked_groups(g: Seq<Group>, all: Selection, sel: Selection, k: int)
    requires
        runs_all(all),
        all.max_path == sel.max_path,
    ensures
        group_reports(g, sel, k) == picked(group_reports(g, all, k), sel),
    decreases k,
{
    if k > 0 {
        lemma_picked_groups(g, all, sel, k - 1);
        lemma_picked_listing(display_path(g[k - 1].dir), g[k - 1].names, all, sel);
        lemma_kept_concat(
            group_reports(g, all, k - 1),
            listing_reports(display_path(g[k - 1].dir), g[k - 1].names, all),
            is_chosen(sel),
        );
    }
}

/// With the same path budget, a selection only leaves findings out.
proof fn lemma_picked_paths(paths: Seq<Seq<u8>>, all: Selection, sel: Selection)
    requires
        runs_all(all),
        all.max_path == sel.max_path,
    ensures
        path_list_reports(paths, sel) == picked(path_list_reports(paths, all), sel),
{
    let g = path_groups(paths);
    let n = g.len() as int;
    lemma_picked_groups(g, all, sel, n);
    lemma_kept_arranged(group_reports(g, all, n), is_chosen(sel));
}

// ---------------------------------------------------------------------------
// Budgets
// ---------------------------------------------------------------------------
/// Do two selections run the same checks?
pub open spec fn run_alike(a: Selection, b: Selection) -> bool {
    forall|k: int| 0 <= k < CHECK_COUNT ==> #[trigger] a.runs(k) == b.runs(k)
}

pub proof fn lemma_ids_alike(a: Selection, b: Selection, id: Seq<char>)
    requires
        run_alike(a, b),
    ensures
        a.runs_id(id) == b.runs_id(id),
{
    if a.runs_id(id) {
        let k = choose|k: int| 0 <= k < CHECK_COUNT && #[trigger] row(k).id == id && a.runs(k);
        assert(row(k).id == id && b.runs(k));
    }
    if b.runs_id(id) {
        let k = choose|k: int| 0 <= k < CHECK_COUNT && #[trigger] row(k).id == id && b.runs(k);
        assert(a.runs(k) == b.runs(k));
    }
}

proof fn lemma_bound_alike(path: Seq<char>, notes: Seq<Note>, a: Selection, b: Selection)
    requires
        run_alike(a, b),
    ensures
        bound(path, notes, a) == bound(path, notes, b),
    decreases notes.len(),
{
    if notes.len() > 0 {
        lemma_bound_alike(path, notes.drop_last(), a, b);
        lemma_ids_alike(a, b, notes.last().check.id);
    }
}

pub proof fn lemma_clashes_alike(
    dir: Seq<char>,
    names: Seq<Seq<u8>>,
    hits: Seq<Clash>,
    a: Selection,
    b: Selection,
)
    requires
        run_alike(a, b),
    ensures
        clash_reports(dir, names, hits, a) == clash_reports(dir, names, hits, b),
    decreases hits.len(),
{
    if hits.len() > 0 {
        let h = hits.last();
        lemma_clashes_alike(dir, names, hits.drop_last(), a, b);
        lemma_bound_alike(path_in(dir, names[h.index]), seq![h.note], a, b);
    }
}

/// Is a report about something else than the length of a path?
pub open spec fn is_no_length() -> spec_fn(Report) -> bool {
    |r: Report| r.check.id != row(10).id
}

/// The reports about something else than the length of a path.
pub open spec fn without_lengths(s: Seq<Report>) -> Seq<Report> {
    kept(s, is_no_length())
}

/// Of the length of a path there is nothing to report but that.
proof fn lemma_no_length(path: Seq<char>, max_path: nat, sel: Selection)
    ensures
        without_lengths(bound(path, at_most_one(path_note(path, max_path)), sel)) == Seq::<
            Report,
        >::empty(),
{
    reveal(path_note);
    let notes = at_most_one(path_note(path, max_path));
    reveal_with_fuel(bound, 2);
    reveal_with_fuel(kept, 2);
    if notes.len() > 0 {
        assert(notes.drop_last().len() == 0);
        assert(bound(path, notes.drop_last(), sel) == Seq::<Report>::empty());
    }
}

pub proof fn lemma_names_alike(
    dir: Seq<char>,
    names: Seq<Seq<u8>>,
    a: Selection,
    b: Selection,
    k: int,
)
    requires
        run_alike(a, b),
    ensures
        without_lengths(names_reports(dir, names, a, k)) == without_lengths(
            names_reports(dir, names, b, k),
        ),
        a.max_path == b.max_path ==> names_reports(dir, names, a, k) == names_reports(
            dir,
            names,
            b,
            k,
        ),
    decreases k,
{
    if k > 0 {
        lemma_names_alike(dir, names, a, b, k - 1);
        lemma_name_alike(dir, names[k - 1], a, b);
        lemma_kept_concat(
            names_reports(dir, names, a, k - 1),
            name_reports(dir, names[k - 1], a),
            is_no_length(),
        );
        lemma_kept_concat(
            names_reports(dir, names, b, k - 1),
            name_reports(dir, names[k - 1], b),
            is_no_length(),
        );
    }
}

proof fn lemma_name_alike(dir: Seq<char>, name: Seq<u8>, a: Selection, b: Selection)
    requires
        run_alike(a, b),
    ensures
        without_lengths(name_reports(dir, name, a)) == without_lengths(name_reports(dir, name, b)),
        a.max_path == b.max_path ==> name_reports(dir, name, a) == name_reports(dir, name, b),
{
    let path = path_in(dir, name);
    lemma_bound_alike(path, component_notes(name), a, b);
    lemma_bound_alike(path, at_most_one(path_note(path, a.max_path as nat)), a, b);
    lemma_length_apart(dir, name, a);
    lemma_length_apart(dir, name, b);
}

proof fn lemma_length_apart(dir: Seq<char>, name: Seq<u8>, sel: Selection)
    ensures
        without_lengths(name_reports(dir, name, sel)) == without_lengths(
            bound(path_in(dir, name), component_notes(name), sel),
        ),
{
    let path = path_in(dir, name);
    let own = bound(path, component_notes(name), sel);
    let none = Seq::<Report>::empty();
    lemma_no_length(path, sel.max_path as nat, sel);
    let length = if utf16_units(dir) <= sel.max_path {
        bound(path, at_most_one(path_note(path, sel.max_path as nat)), sel)
    } else {
        none
    };
    assert(kept(none, is_no_length()) == none);
    lemma_kept_concat(own, length, is_no_length());
    assert(without_lengths(own) + none == without_lengths(own));
}

proof fn lemma_groups_alike(g: Seq<Group>, a: Selection, b: Selection, k: int)
    requires
        run_alike(a, b),
    ensures
        without_lengths(group_reports(g, a, k)) == without_lengths(group_reports(g, b, k)),
        a.max_path == b.max_path ==> group_reports(g, a, k) == group_reports(g, b, k),
    decreases k,
{
    if k > 0 {
        let dir = display_path(g[k - 1].dir);
        let names = g[k - 1].names;
        let n = names.len() as int;
        lemma_groups_alike(g, a, b, k - 1);
        lemma_names_alike(dir, names, a, b, n);
        lemma_clashes_alike(dir, names, clashes(names, n), a, b);
        let p = is_no_length();
        lemma_kept_concat(
            names_reports(dir, names, a, n),
            clash_reports(dir, names, clashes(names, n), a),
            p,
        );
        lemma_kept_concat(
            names_reports(dir, names, b, n),
            clash_reports(dir, names, clashes(names, n), b),
            p,
        );
        lemma_kept_concat(group_reports(g, a, k - 1), listing_reports(dir, names, a), p);
        lemma_kept_concat(group_reports(g, b, k - 1), listing_reports(dir, names, b), p);
    }
}

/// What is reported of a list of paths depends on which checks run and on the path
/// budget, and on the latter only as far as the lengths of paths go.
pub proof fn law_budgets_matter_for_lengths(paths: Seq<Seq<u8>>, a: Selection, b: Selection)
    requires
        run_alike(a, b),
    ensures
        without_lengths(path_list_reports(paths, a)) == without_lengths(
            path_list_reports(paths, b),
        ),
        a.max_path == b.max_path ==> path_list_reports(paths, a) == path_list_reports(paths, b),
{
    let g = path_groups(paths);
    let n = g.len() as int;
    lemma_groups_alike(g, a, b, n);
    lemma_kept_arranged(group_reports(g, a, n), is_no_length());
    lemma_kept_arranged(group_reports(g, b, n), is_no_length());
}

/// A selection of checks only leaves findings out: what it reports of a list of
/// paths is what all checks report, without the findings of the others. Where the
/// path budgets differ, this holds of all findings but the lengths of paths.
pub proof fn law_selections_only_filter(
    paths: Seq<Seq<u8>>,
    all: Selection,
    sel: Selection,
)
    requires
        runs_all(all),
    ensures
        without_lengths(path_list_reports(paths, sel)) == without_lengths(
            picked(path_list_reports(paths, all), sel),
        ),
        all.max_path == sel.max_path ==> path_list_reports(paths, sel) == picked(
            path_list_reports(paths, all),
            sel,
        ),
{
    let mid = Selection {
        enabled: sel.enabled,
        max_path: all.max_path,
        max_files: sel.max_files,
    };
    assert(run_alike(sel, mid));
    lemma_picked_paths(paths, all, mid);
    law_budgets_matter_for_lengths(paths, sel, mid);
    assert forall|r: Report| #[trigger] is_chosen(sel)(r) == is_chosen(mid)(r) by {
        lemma_ids_alike(sel, mid, r.check.id);
    }
    assert(is_chosen(sel) =~= is_chosen(mid));
}

// ---------------------------------------------------------------------------
// Order and repeats
// ---------------------------------------------------------------------------
/// Is one of `paths` a path with these components?
pub open spec fn lists(paths: Seq<Seq<u8>>, parts: Seq<Seq<u8>>) -> bool {
    exists|i: int| 0 <= i < paths.len() && components(#[trigger] paths[i]) == parts
}

/// What the first `n` paths pass through.
proof fn lemma_spots(paths: Seq<Seq<u8>>, n: int, p: Spot)
    requires
        0 <= n <= paths.len(),
    ensures
        spots(paths, n).contains(p) <==> exists|i: int|
            0 <= i < n && path_spots(components(#[trigger] paths[i])).contains(p),
    decreases n,
{
    if n > 0 {
        lemma_spots(paths, n - 1, p);
        let a = spots(paths, n - 1);
        let b = path_spots(components(paths[n - 1]));
        let s = spots(paths, n);
        assert(s == a + b);
        if s.contains(p) {
            let j = choose|j: int| 0 <= j < s.len() && s[j] == p;
            if j < a.len() {
                assert(a[j] == p);
            } else {
                assert(b[j - a.len()] == p);
            }
        }
        if a.contains(p) {
            let j = choose|j: int| 0 <= j < a.len() && a[j] == p;
            assert(s[j] == p);
        }
        if b.contains(p) {
            let j = choose|j: int| 0 <= j < b.len() && b[j] == p;
            assert(s[a.len() + j] == p);
        }
    }
}

/// One spot after the other, each once.
spec fn is_strict(s: Seq<Spot>) -> bool {
    forall|i: int, j: int|
        0 <= i < j < s.len() ==> (#[trigger] s[i]).leq(#[trigger] s[j]) && s[i] != s[j]
}

/// Sorted spots, each once.
spec fn once(s: Seq<Spot>) -> Seq<Spot>
    decreases s.len(),
{
    if s.len() == 0 {
        s
    } else if s.len() > 1 && s[s.len() - 2] == s.last() {
        once(s.drop_last())
    } else {
        once(s.drop_last()).push(s.last())
    }
}

proof fn lemma_spot_antisymmetric(a: Spot, b: Spot)
    requires
        a.leq(b),
        b.leq(a),
    ensures
        a == b,
{
    if a.dir == b.dir {
        lemma_bytes_antisymmetric(a.name, b.name);
    } else {
        lemma_parts_antisymmetric(a.dir, b.dir);
    }
}

proof fn lemma_once(s: Seq<Spot>)
    requires
        is_ascending(s),
    ensures
        is_strict(once(s)),
        groups(once(s)) == groups(s),
        s.len() > 0 ==> once(s).len() > 0 && once(s).last() == s.last(),
        forall|p: Spot| #[trigger] once(s).contains(p) <==> s.contains(p),
    decreases s.len(),
{
    if s.len() > 0 {
        let u = s.drop_last();
        let x = s.last();
        assert forall|i: int, j: int| 0 <= i < j < u.len() implies (#[trigger] u[i]).leq(
            #[trigger] u[j],
        ) by {
            assert(s[i].leq(s[j]));
        }
        lemma_once(u);
        let v = once(u);
        let w = once(s);
        if s.len() > 1 && s[s.len() - 2] == x {
            lemma_groups(u);
        } else {
            assert(w.drop_last() == v);
            assert forall|i: int, j: int| 0 <= i < j < w.len() implies (#[trigger] w[i]).leq(
                #[trigger] w[j],
            ) && w[i] != w[j] by {
                if j == v.len() {
                    let y = u.last();
                    assert(s[s.len() - 2].leq(s[s.len() - 1]));
                    if i < v.len() - 1 {
                        assert(v[i].leq(v[v.len() - 1]));
                        Spot::lemma_transitive(v[i], y, x);
                        if v[i] == x {
                            lemma_spot_antisymmetric(y, x);
                        }
                    }
                } else {
                    assert(v[i].leq(v[j]));
                }
            }
        }
        assert forall|p: Spot| #[trigger] w.contains(p) <==> s.contains(p) by {
            assert(v.contains(p) <==> u.contains(p));
            if w.contains(p) {
                let i = choose|i: int| 0 <= i < w.len() && w[i] == p;
                if i < v.len() {
                    assert(v[i] == p);
                }
            }
            if v.contains(p) {
                let i = choose|i: int| 0 <= i < v.len() && v[i] == p;
                assert(w[i] == p);
            }
            if s.contains(p) {
                let i = choose|i: int| 0 <= i < s.len() && s[i] == p;
                if i < u.len() {
                    assert(u[i] == p);
                }
            }
            if u.contains(p) {
                let i = choose|i: int| 0 <= i < u.len() && u[i] == p;
                assert(s[i] == p);
            }
            assert(s[s.len() - 1] == x);
            assert(w[w.len() - 1] == x);
        }
    }
}

/// There is one way to put a set of spots in order.
proof fn lemma_one_way(s: Seq<Spot>, t: Seq<Spot>)
    requires
        is_strict(s),
        is_strict(t),
        forall|p: Spot| #[trigger] s.contains(p) <==> t.contains(p),
    ensures
        s == t,
    decreases s.len(),
{
    if s.len() == 0 {
        if t.len() > 0 {
            assert(t.contains(t[0]));
            assert(s.contains(t[0]));
        }
    } else {
        let x = s.last();
        assert(s[s.len() - 1] == x);
        assert(s.contains(x));
        assert(t.contains(x));
        let y = t.last();
        assert(t[t.len() - 1] == y);
        assert(t.contains(y));
        assert(s.contains(y));
        let i = choose|i: int| 0 <= i < s.len() && s[i] == y;
        let j = choose|j: int| 0 <= j < t.len() && t[j] == x;
        if i < s.len() - 1 && j < t.len() - 1 {
            assert(s[i].leq(s[s.len() - 1]));
            assert(t[j].leq(t[t.len() - 1]));
            lemma_spot_antisymmetric(x, y);
        }
        assert(x == y);
        let u = s.drop_last();
        let v = t.drop_last();
        lemma_strict_prefix(v, t);
        lemma_strict_prefix(u, s);
        assert forall|p: Spot| #[trigger] u.contains(p) <==> v.contains(p) by {
            assert(u.contains(p) <==> s.contains(p) && p != x);
            assert(v.contains(p) <==> t.contains(p) && p != x);
        }
        lemma_one_way(u, v);
        assert(s == u.push(x));
        assert(t == v.push(x));
    }
}

/// Without the last, all others are left.
proof fn lemma_strict_prefix(v: Seq<Spot>, t: Seq<Spot>)
    requires
        is_strict(t),
        t.len() > 0,
        v == t.drop_last(),
    ensures
        is_strict(v),
        forall|p: Spot| #[trigger] v.contains(p) <==> t.contains(p) && p != t.last(),
{
    assert forall|i: int, j: int| 0 <= i < j < v.len() implies (#[trigger] v[i]).leq(
        #[trigger] v[j],
    ) && v[i] != v[j] by {
        assert(t[i].leq(t[j]));
    }
    assert forall|p: Spot| #[trigger] v.contains(p) <==> t.contains(p) && p != t.last() by {
        if v.contains(p) {
            let i = choose|i: int| 0 <= i < v.len() && v[i] == p;
            assert(t[i] == p);
            assert(t[i].leq(t[t.len() - 1]) && t[i] != t[t.len() - 1]);
        }
        if t.contains(p) && p != t.last() {
            let i = choose|i: int| 0 <= i < t.len() && t[i] == p;
            assert(v[i] == p);
        }
    }
}

/// The findings of a list of paths depend only on the set of the paths'
/// components: neither the order of the paths nor repeats, leading `./`, or
/// doubled and trailing slashes change them.
pub proof fn law_only_components_matter(a: Seq<Seq<u8>>, b: Seq<Seq<u8>>, sel: Selection)
    requires
        forall|parts: Seq<Seq<u8>>|
            parts.len() > 0 ==> #[trigger] lists(a, parts) == lists(b, parts),
    ensures
        path_groups(a) == path_groups(b),
        path_list_reports(a, sel) == path_list_reports(b, sel),
{
    broadcast use vstd::seq_lib::group_to_multiset_ensures;

    let x = spots(a, a.len() as int);
    let y = spots(b, b.len() as int);
    assert forall|p: Spot| #[trigger] x.contains(p) <==> y.contains(p) by {
        lemma_spots(a, a.len() as int, p);
        lemma_spots(b, b.len() as int, p);
        if x.contains(p) {
            lemma_listed(a, b, p);
        }
        if y.contains(p) {
            assert forall|parts: Seq<Seq<u8>>| parts.len() > 0 implies #[trigger] lists(b, parts)
                == lists(a, parts) by {
                assert(lists(a, parts) == lists(b, parts));
            }
            lemma_listed(b, a, p);
        }
    }
    law_arranged(x);
    law_arranged(y);
    lemma_once(arranged(x));
    lemma_once(arranged(y));
    assert forall|p: Spot| #[trigger] once(arranged(x)).contains(p) <==> once(
        arranged(y),
    ).contains(p) by {
        assert(arranged(x).to_multiset().count(p) == x.to_multiset().count(p));
        assert(arranged(y).to_multiset().count(p) == y.to_multiset().count(p));
        assert(x.contains(p) <==> y.contains(p));
    }
    lemma_one_way(once(arranged(x)), once(arranged(y)));
}

proof fn lemma_listed(a: Seq<Seq<u8>>, b: Seq<Seq<u8>>, p: Spot)
    requires
        forall|parts: Seq<Seq<u8>>|
            parts.len() > 0 ==> #[trigger] lists(a, parts) == lists(b, parts),
        exists|i: int|
            0 <= i < a.len() && path_spots(components(#[trigger] a[i])).contains(p),
    ensures
        exists|i: int|
            0 <= i < b.len() && path_spots(components(#[trigger] b[i])).contains(p),
{
    let i = choose|i: int|
        0 <= i < a.len() && path_spots(components(#[trigger] a[i])).contains(p);
    let parts = components(a[i]);
    assert(lists(a, parts));
    assert(lists(b, parts));
    let j = choose|j: int| 0 <= j < b.len() && components(#[trigger] b[j]) == parts;
    assert(path_spots(components(b[j])).contains(p));
}

} // verus!
