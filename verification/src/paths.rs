//! The names that a list of paths passes through, grouped by directory.

use vstd::prelude::*;

use crate::checks::bytes_of;
use crate::order::{
    arranged, bytes_leq, carries_order, is_bytes_leq, is_parts_leq, lemma_arranged_map,
    lemma_lex_total, lemma_lex_transitive, lemma_parts_antisymmetric, lemma_parts_total,
    lemma_parts_transitive, numbers, parts_leq, sort, Ranked, Sortable,
};
use crate::text::{copy_bytes, copy_range, same_bytes};
use crate::walker::{join_rel, parts_of, path_in};

verus! {

/// A name in a directory, the latter by its components.
pub ghost struct Spot {
    pub dir: Seq<Seq<u8>>,
    pub name: Seq<u8>,
}

impl Ranked for Spot {
    /// By directory, and in one directory by name.
    open spec fn leq(self, other: Spot) -> bool {
        if self.dir == other.dir {
            bytes_leq(self.name, other.name)
        } else {
            parts_leq(self.dir, other.dir)
        }
    }

    proof fn lemma_total(a: Spot, b: Spot) {
        lemma_parts_total(a.dir, b.dir);
        lemma_lex_total(numbers(a.name), numbers(b.name));
    }

    proof fn lemma_transitive(a: Spot, b: Spot, c: Spot) {
        if a.dir == b.dir && b.dir == c.dir {
            lemma_lex_transitive(numbers(a.name), numbers(b.name), numbers(c.name));
        } else if a.dir != b.dir && b.dir != c.dir {
            lemma_parts_transitive(a.dir, b.dir, c.dir);
            if a.dir == c.dir {
                lemma_parts_antisymmetric(a.dir, b.dir);
            }
        }
    }
}

/// A name in a directory.
pub struct Located {
    pub dir: Vec<Vec<u8>>,
    pub name: Vec<u8>,
}

impl View for Located {
    type V = Spot;

    open spec fn view(&self) -> Spot {
        Spot { dir: parts_of(self.dir@), name: self.name@ }
    }
}

impl Ranked for Located {
    open spec fn leq(self, other: Located) -> bool {
        self@.leq(other@)
    }

    proof fn lemma_total(a: Located, b: Located) {
        Spot::lemma_total(a@, b@);
    }

    proof fn lemma_transitive(a: Located, b: Located, c: Located) {
        Spot::lemma_transitive(a@, b@, c@);
    }
}

/// Are two lists of components the same?
fn same_parts(a: &Vec<Vec<u8>>, b: &Vec<Vec<u8>>) -> (r: bool)
    ensures
        r == (parts_of(a@) == parts_of(b@)),
{
    if a.len() != b.len() {
        assert(parts_of(a@).len() != parts_of(b@).len());
        return false;
    }
    let mut i: usize = 0;
    while i < a.len()
        invariant
            i <= a@.len() == b@.len(),
            forall|j: int| 0 <= j < i ==> #[trigger] parts_of(a@)[j] == parts_of(b@)[j],
        decreases a@.len() - i,
    {
        assert(parts_of(a@)[i as int] == a@[i as int]@);
        assert(parts_of(b@)[i as int] == b@[i as int]@);
        if !same_bytes(&a[i], &b[i]) {
            return false;
        }
        i = i + 1;
    }
    assert(parts_of(a@) == parts_of(b@));
    true
}

impl Sortable for Located {
    fn is_leq(&self, other: &Located) -> (r: bool) {
        if same_parts(&self.dir, &other.dir) {
            is_bytes_leq(&self.name, &other.name)
        } else {
            is_parts_leq(&self.dir, &other.dir)
        }
    }
}

/// The spots of located names.
pub open spec fn spots_of(v: Seq<Located>) -> Seq<Spot> {
    v.map_values(|l: Located| l@)
}

/// The first slash in `raw` from `from` on, or its end.
pub open spec fn next_slash(raw: Seq<u8>, from: int) -> int
    decreases raw.len() - from,
{
    if from >= raw.len() || raw[from] == 0x2F {
        from
    } else {
        next_slash(raw, from + 1)
    }
}

pub proof fn lemma_next_slash(raw: Seq<u8>, from: int)
    requires
        0 <= from <= raw.len(),
    ensures
        from <= next_slash(raw, from) <= raw.len(),
    decreases raw.len() - from,
{
    if from < raw.len() && raw[from] != 0x2F {
        lemma_next_slash(raw, from + 1);
    }
}

/// Is `comp` a component that names something? The empty ones come from a slash
/// at an end or a double one, and a single dot from a leading `./`.
pub open spec fn is_component(comp: Seq<u8>) -> bool {
    comp.len() > 0 && comp != seq![0x2Eu8]
}

/// The components of the path `raw` from `from` on.
pub open spec fn components_from(raw: Seq<u8>, from: int) -> Seq<Seq<u8>>
    decreases raw.len() - from,
    when 0 <= from <= raw.len()
{
    proof {
        lemma_next_slash(raw, from);
    }
    let end = next_slash(raw, from);
    let comp = raw.subrange(from, end);
    let here = if is_component(comp) {
        seq![comp]
    } else {
        seq![]
    };
    if end >= raw.len() {
        here
    } else {
        here + components_from(raw, end + 1)
    }
}

/// The components of a path: what stands between its slashes, without what names
/// nothing.
pub open spec fn components(raw: Seq<u8>) -> Seq<Seq<u8>> {
    components_from(raw, 0)
}

/// The names that a path with these components passes through, each with its
/// directory.
pub open spec fn path_spots(parts: Seq<Seq<u8>>) -> Seq<Spot> {
    Seq::new(parts.len(), |k: int| Spot { dir: parts.take(k), name: parts[k] })
}

/// The names that the first `k` paths pass through.
pub open spec fn spots(paths: Seq<Seq<u8>>, k: int) -> Seq<Spot>
    decreases k,
{
    if k <= 0 {
        seq![]
    } else {
        spots(paths, k - 1) + path_spots(components(paths[k - 1]))
    }
}

/// The display path of the directory with these components.
pub open spec fn display_path(parts: Seq<Seq<u8>>) -> Seq<char>
    decreases parts.len(),
{
    if parts.len() == 0 {
        seq![]
    } else {
        path_in(display_path(parts.drop_last()), parts.last())
    }
}

/// The names in one directory.
pub ghost struct Group {
    pub dir: Seq<Seq<u8>>,
    pub names: Seq<Seq<u8>>,
}

/// Sorted spots by directory, each name once.
pub open spec fn groups(sorted: Seq<Spot>) -> Seq<Group>
    decreases sorted.len(),
{
    if sorted.len() == 0 {
        seq![]
    } else {
        let g = groups(sorted.drop_last());
        let s = sorted.last();
        if g.len() > 0 && g.last().dir == s.dir {
            if g.last().names.last() == s.name {
                g
            } else {
                g.drop_last().push(Group { dir: s.dir, names: g.last().names.push(s.name) })
            }
        } else {
            g.push(Group { dir: s.dir, names: seq![s.name] })
        }
    }
}

/// Splits a path into its components.
fn split_path(raw: &[u8]) -> (r: Vec<Vec<u8>>)
    ensures
        parts_of(r@) == components(raw@),
{
    let ghost whole = components(raw@);
    let mut out: Vec<Vec<u8>> = Vec::new();
    let mut from: usize = 0;
    let n: usize = raw.len();
    assert(whole == parts_of(out@) + components_from(raw@, 0));
    loop
        invariant
            from <= n == raw@.len(),
            whole == components(raw@),
            whole == parts_of(out@) + components_from(raw@, from as int),
        decreases n - from,
    {
        let ghost done = parts_of(out@);
        let mut end: usize = from;
        while end < n && raw[end] != 0x2F
            invariant
                from <= end <= n == raw@.len(),
                next_slash(raw@, from as int) == next_slash(raw@, end as int),
            decreases n - end,
        {
            end = end + 1;
        }
        assert(end == next_slash(raw@, from as int));
        let comp: Vec<u8> = copy_range(raw, from, end);
        let ghost here = comp@;
        let ghost rest = components_from(raw@, end + 1);
        let ghost none = Seq::<Seq<u8>>::empty();
        let dot: [u8; 1] = [0x2E];
        assert(dot@ == seq![0x2Eu8]);
        if comp.len() > 0 && !same_bytes(&comp, &dot) {
            assert(is_component(here));
            let ghost before = out@;
            out.push(comp);
            proof {
                assert(parts_of(out@) == parts_of(before).push(here));
                assert(end < n ==> components_from(raw@, from as int) == seq![here] + rest);
                assert(end == n ==> components_from(raw@, from as int) == seq![here]);
                assert(done + (seq![here] + rest) == parts_of(out@) + rest);
                assert(done + seq![here] == parts_of(out@));
            }
        } else {
            assert(!is_component(here));
            proof {
                assert(end < n ==> components_from(raw@, from as int) == none + rest);
                assert(end == n ==> components_from(raw@, from as int) == none);
                assert(none + rest == rest);
                assert(done + none == done);
            }
        }
        if end == n {
            assert(whole == parts_of(out@));
            return out;
        }
        from = end + 1;
    }
}

/// A copy of the first `k` components.
fn copy_parts(parts: &Vec<Vec<u8>>, k: usize) -> (r: Vec<Vec<u8>>)
    requires
        k <= parts@.len(),
    ensures
        parts_of(r@) == parts_of(parts@).take(k as int),
{
    let mut out: Vec<Vec<u8>> = Vec::new();
    let mut i: usize = 0;
    while i < k
        invariant
            i <= k <= parts@.len(),
            out@.len() == i,
            forall|j: int| 0 <= j < i ==> (#[trigger] out@[j])@ == parts@[j]@,
        decreases k - i,
    {
        out.push(copy_bytes(&parts[i]));
        i = i + 1;
    }
    assert(parts_of(out@) == parts_of(parts@).take(k as int));
    out
}

/// Appends the names that a path passes through.
fn push_spots(raw: &[u8], out: &mut Vec<Located>)
    ensures
        spots_of(final(out)@) == spots_of(old(out)@) + path_spots(components(raw@)),
{
    let parts: Vec<Vec<u8>> = split_path(raw);
    let ghost base = spots_of(out@);
    let ghost all = path_spots(parts_of(parts@));
    let mut k: usize = 0;
    assert(base + all.take(0) == base);
    while k < parts.len()
        invariant
            k <= parts@.len(),
            all == path_spots(parts_of(parts@)),
            spots_of(out@) == base + all.take(k as int),
        decreases parts@.len() - k,
    {
        let item = Located { dir: copy_parts(&parts, k), name: copy_bytes(&parts[k]) };
        assert(parts_of(parts@)[k as int] == parts@[k as int]@);
        assert(item@ == all[k as int]);
        let ghost before = out@;
        out.push(item);
        assert(spots_of(out@) == spots_of(before).push(item@));
        assert(base + all.take(k + 1) == (base + all.take(k as int)).push(all[k as int]));
        k = k + 1;
    }
    assert(all.take(all.len() as int) == all);
}

/// The display path of a directory.
pub fn show_path(parts: &Vec<Vec<u8>>) -> (r: String)
    ensures
        r@ == display_path(parts_of(parts@)),
{
    let ghost all = parts_of(parts@);
    let mut out = String::new();
    let mut k: usize = 0;
    assert(out@ == display_path(all.take(0)));
    while k < parts.len()
        invariant
            k <= parts@.len(),
            all == parts_of(parts@),
            out@ == display_path(all.take(k as int)),
        decreases parts@.len() - k,
    {
        assert(all.take(k + 1).drop_last() == all.take(k as int));
        assert(all.take(k + 1).last() == parts@[k as int]@);
        out = join_rel(&out, &parts[k]);
        k = k + 1;
    }
    assert(all.take(all.len() as int) == all);
    out
}

/// The names in one directory.
pub struct Bucket {
    pub dir: Vec<Vec<u8>>,
    pub names: Vec<Vec<u8>>,
}

impl View for Bucket {
    type V = Group;

    open spec fn view(&self) -> Group {
        Group { dir: parts_of(self.dir@), names: raws_of(self.names@) }
    }
}

/// The groups in buckets.
pub open spec fn groups_of(v: Seq<Bucket>) -> Seq<Group> {
    v.map_values(|b: Bucket| b@)
}

/// Puts sorted names into buckets by directory, each name once.
fn fill_buckets(sorted: Vec<Located>) -> (r: Vec<Bucket>)
    ensures
        groups_of(r@) == groups(spots_of(sorted@)),
{
    let ghost all = spots_of(sorted@);
    let mut out: Vec<Bucket> = Vec::new();
    assert(groups_of(out@) == groups(all.take(0)));
    for item in it: sorted
        invariant
            it.seq() == sorted@,
            all == spots_of(sorted@),
            groups_of(out@) == groups(all.take(it.index())),
            forall|i: int| 0 <= i < out@.len() ==> (#[trigger] out@[i]).names@.len() > 0,
    {
        let ghost k = it.index();
        let ghost before = out@;
        let ghost g = groups(all.take(k));
        assert(item@ == all[k]);
        assert(all.take(k + 1).drop_last() == all.take(k));
        assert(all.take(k + 1).last() == item@);
        let n: usize = out.len();
        if n > 0 && same_parts(&out[n - 1].dir, &item.dir) {
            assert(g.last() == before.last()@);
            let m: usize = out[n - 1].names.len();
            assert(out@[n - 1].names@.len() > 0);
            assert(g.last().names.last() == out@[n - 1].names@[m - 1]@);
            if !same_bytes(&out[n - 1].names[m - 1], &item.name) {
                if let Some(last) = out.pop() {
                    let mut names: Vec<Vec<u8>> = last.names;
                    let ghost old_names = names@;
                    names.push(item.name);
                    assert(raws_of(names@) == raws_of(old_names).push(item.name@));
                    out.push(Bucket { dir: last.dir, names });
                    assert(groups_of(out@) == g.drop_last().push(out@.last()@));
                }
            }
        } else {
            let mut names: Vec<Vec<u8>> = Vec::new();
            names.push(item.name);
            assert(raws_of(names@) == seq![item.name@]);
            out.push(Bucket { dir: item.dir, names });
            assert(groups_of(out@) == g.push(out@.last()@));
        }
    }
    assert(all.take(all.len() as int) == all);
    out
}

/// The names as slices.
pub fn slices<'a>(names: &'a Vec<Vec<u8>>) -> (r: Vec<&'a [u8]>)
    ensures
        bytes_of(r@) == raws_of(names@),
{
    let mut out: Vec<&'a [u8]> = Vec::new();
    let mut i: usize = 0;
    while i < names.len()
        invariant
            i <= names@.len(),
            out@.len() == i,
            forall|j: int| 0 <= j < i ==> (#[trigger] out@[j])@ == names@[j]@,
        decreases names@.len() - i,
    {
        out.push(names[i].as_slice());
        i = i + 1;
    }
    assert(bytes_of(out@) == raws_of(names@));
    out
}

/// The groups that a list of paths makes: by directory in ascending order, with
/// the names in ascending order, each once.
pub open spec fn path_groups(paths: Seq<Seq<u8>>) -> Seq<Group> {
    groups(arranged(spots(paths, paths.len() as int)))
}

/// The raw bytes of paths, names or arguments.
pub open spec fn raws_of(paths: Seq<Vec<u8>>) -> Seq<Seq<u8>> {
    paths.map_values(|p: Vec<u8>| p@)
}

/// Groups the names that paths pass through by directory.
pub fn group_paths(paths: &[Vec<u8>]) -> (r: Vec<Bucket>)
    ensures
        groups_of(r@) == path_groups(raws_of(paths@)),
{
    let ghost raws = raws_of(paths@);
    let mut located: Vec<Located> = Vec::new();
    let mut i: usize = 0;
    assert(spots_of(located@) == spots(raws, 0));
    while i < paths.len()
        invariant
            i <= paths@.len(),
            raws == raws_of(paths@),
            spots_of(located@) == spots(raws, i as int),
        decreases paths@.len() - i,
    {
        assert(raws[i as int] == paths@[i as int]@);
        push_spots(&paths[i], &mut located);
        i = i + 1;
    }
    proof {
        let f = |l: Located| l@;
        assert(carries_order(f));
        lemma_arranged_map(located@, f);
    }
    fill_buckets(sort(located))
}

} // verus!
