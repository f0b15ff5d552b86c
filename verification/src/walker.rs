//! A deterministic walk over a directory tree.
//!
//! Directories are visited depth-first in byte-sorted order, each with its sorted
//! entries. That matters twice: a collision is attributed to the first name of
//! its group, and two walks over one tree must give the same report. Reading a
//! directory is the caller's part: `Walker` says which one comes next and takes
//! its listing. Symlinks are leaves, and `.git` directories are not entered.

use vstd::prelude::*;
use vstd::string::StringExecFns;

use crate::order::{
    arranged, bytes_leq, is_bytes_leq, lemma_lex_total, lemma_lex_transitive, numbers, sort, Ranked,
    Sortable,
};
use crate::text::{copy_bytes, same_bytes};
use crate::utf8::{as_text, decode_lossy};

verus! {

/// One directory entry, with its name in raw bytes.
pub struct Entry {
    pub name: Vec<u8>,
    pub is_dir: bool,
}

/// One visited directory: its path relative to the root, for display (`""` for
/// the root itself) and as raw components, and its sorted entries.
pub struct Dir {
    pub rel: String,
    pub rel_path: Vec<Vec<u8>>,
    pub entries: Vec<Entry>,
}

/// The result of a walk.
pub struct Walk {
    pub dirs: Vec<Dir>,
    pub files: usize,
    pub dir_count: usize,
    /// Whether the limit stopped the walk early: statements on the whole tree are
    /// then only partial.
    pub truncated: bool,
}

/// The components of a path.
pub open spec fn parts_of(path: Seq<Vec<u8>>) -> Seq<Seq<u8>> {
    path.map_values(|p: Vec<u8>| p@)
}

/// The display path of `name` in `dir`.
pub open spec fn path_in(dir: Seq<char>, name: Seq<u8>) -> Seq<char> {
    if dir.len() == 0 {
        as_text(name)
    } else {
        dir + "/"@ + as_text(name)
    }
}

/// The display path of `name` in `dir`.
pub fn join_rel(dir: &str, name: &[u8]) -> (r: String)
    ensures
        r@ == path_in(dir@, name@),
{
    join_text(dir, &decode_lossy(name))
}

/// The display path of a name that reads `name` in `dir`.
pub fn join_text(dir: &str, name: &str) -> (r: String)
    ensures
        r@ == if dir@.len() == 0 {
            name@
        } else {
            dir@ + "/"@ + name@
        },
{
    if dir.is_empty() {
        proof {
            vstd::utf8::encode_utf8_decode_utf8(dir@);
        }
        return name.to_owned();
    }
    let mut out: String = dir.to_owned();
    out.append("/");
    out.append(name);
    out
}

impl Ranked for Entry {
    /// By name.
    open spec fn leq(self, other: Entry) -> bool {
        bytes_leq(self.name@, other.name@)
    }

    proof fn lemma_total(a: Entry, b: Entry) {
        lemma_lex_total(numbers(a.name@), numbers(b.name@));
    }

    proof fn lemma_transitive(a: Entry, b: Entry, c: Entry) {
        lemma_lex_transitive(numbers(a.name@), numbers(b.name@), numbers(c.name@));
    }
}

impl Sortable for Entry {
    fn is_leq(&self, other: &Entry) -> (r: bool) {
        is_bytes_leq(&self.name, &other.name)
    }
}

// ---------------------------------------------------------------------------
// The walk under way
// ---------------------------------------------------------------------------
/// A directory that is still to be visited.
struct Pending {
    rel: String,
    rel_path: Vec<Vec<u8>>,
}

/// A directory that is still to be visited: its display path and its components.
pub ghost struct Place {
    pub rel: Seq<char>,
    pub parts: Seq<Seq<u8>>,
}

/// A visited directory.
pub ghost struct Visit {
    pub place: Place,
    pub entries: Seq<Entry>,
}

/// A walk under way: what has been visited and counted, and what is still to be
/// visited, the next last.
pub ghost struct Progress {
    pub visits: Seq<Visit>,
    pub files: int,
    pub dirs: int,
    pub truncated: bool,
    pub pending: Seq<Place>,
}

/// The name of the directories that are not entered.
pub open spec fn is_git(name: Seq<u8>) -> bool {
    name == seq![0x2Eu8, 0x67u8, 0x69u8, 0x74u8]
}

/// How many of `entries` are directories.
pub open spec fn count_dirs(entries: Seq<Entry>) -> int
    decreases entries.len(),
{
    if entries.len() == 0 {
        0
    } else {
        count_dirs(entries.drop_last()) + if entries.last().is_dir {
            1int
        } else {
            0int
        }
    }
}

/// The directories among `entries` that are to be visited.
pub open spec fn children(place: Place, entries: Seq<Entry>) -> Seq<Place>
    decreases entries.len(),
{
    if entries.len() == 0 {
        seq![]
    } else {
        let before = children(place, entries.drop_last());
        let e = entries.last();
        if e.is_dir && !is_git(e.name@) {
            before.push(Place { rel: path_in(place.rel, e.name@), parts: place.parts.push(e.name@) })
        } else {
            before
        }
    }
}

/// The part of a sorted listing that is visited, with room for `room` entries.
pub open spec fn visited(entries: Seq<Entry>, room: int) -> Seq<Entry> {
    if entries.len() <= room {
        entries
    } else {
        entries.take(room)
    }
}

/// A walk at its beginning.
pub open spec fn beginning() -> Progress {
    Progress {
        visits: seq![],
        files: 0,
        dirs: 0,
        truncated: false,
        pending: seq![Place { rel: seq![], parts: seq![] }],
    }
}

/// A walk after the listing of the next directory: its entries are sorted and
/// visited as long as the limit allows, and the subdirectories among those come
/// next, smallest first.
pub open spec fn advanced(p: Progress, listing: Seq<Entry>, max_files: int) -> Progress {
    let place = p.pending.last();
    let entries = arranged(listing);
    let room = max_files - p.files - p.dirs;
    let seen = visited(entries, room);
    Progress {
        visits: p.visits.push(Visit { place, entries: seen }),
        files: p.files + (seen.len() - count_dirs(seen)),
        dirs: p.dirs + count_dirs(seen),
        truncated: entries.len() > room,
        pending: p.pending.drop_last() + children(place, seen).reverse(),
    }
}

/// How many entries have been visited.
pub open spec fn count_entries(visits: Seq<Visit>) -> nat
    decreases visits.len(),
{
    if visits.len() == 0 {
        0
    } else {
        count_entries(visits.drop_last()) + visits.last().entries.len()
    }
}

/// Have at most `max_files` entries been visited, and have all of them been counted?
pub open spec fn is_within(p: Progress, max_files: int) -> bool {
    0 <= p.files && 0 <= p.dirs && p.files + p.dirs == count_entries(p.visits) <= max_files
}

/// Is there nothing left to visit?
pub open spec fn is_over(p: Progress) -> bool {
    p.truncated || p.pending.len() == 0
}

/// A walk that asks for one directory listing after the other.
pub struct Walker {
    max_files: usize,
    pending: Vec<Pending>,
    walk: Walk,
}

/// The places of pending directories.
closed spec fn places_of(pending: Seq<Pending>) -> Seq<Place> {
    pending.map_values(|d: Pending| Place { rel: d.rel@, parts: parts_of(d.rel_path@) })
}

/// The visits that a walk has recorded.
pub open spec fn visits_of(dirs: Seq<Dir>) -> Seq<Visit> {
    dirs.map_values(
        |d: Dir|
            Visit {
                place: Place { rel: d.rel@, parts: parts_of(d.rel_path@) },
                entries: d.entries@,
            },
    )
}

impl Walker {
    /// The limit on the number of entries.
    pub closed spec fn limit(self) -> int {
        self.max_files as int
    }

    /// What has been done and what is left.
    pub closed spec fn progress(self) -> Progress {
        Progress {
            visits: visits_of(self.walk.dirs@),
            files: self.walk.files as int,
            dirs: self.walk.dir_count as int,
            truncated: self.walk.truncated,
            pending: places_of(self.pending@),
        }
    }

    /// Is what has been visited within the limit?
    pub open spec fn is_sound(self) -> bool {
        is_within(self.progress(), self.limit()) && self.limit() <= usize::MAX
    }

    /// A walk that visits at most `max_files` entries.
    pub fn new(max_files: usize) -> (r: Walker)
        ensures
            r.is_sound(),
            r.limit() == max_files,
            r.progress() == beginning(),
    {
        let root = Pending { rel: String::new(), rel_path: Vec::new() };
        assert(parts_of(root.rel_path@) == Seq::<Seq<u8>>::empty());
        assert(root.rel@ == Seq::<char>::empty());
        let mut pending: Vec<Pending> = Vec::new();
        pending.push(root);
        let walk = Walk { dirs: Vec::new(), files: 0, dir_count: 0, truncated: false };
        let r = Walker { max_files, pending, walk };
        assert(r.progress().visits == beginning().visits);
        assert(r.progress().pending == beginning().pending);
        r
    }

    /// The directory to read next, as components relative to the root.
    pub fn next_dir(&self) -> (r: Option<&Vec<Vec<u8>>>)
        ensures
            r is None == is_over(self.progress()),
            r is Some ==> parts_of((*r->0)@) == self.progress().pending.last().parts,
    {
        if self.walk.truncated || self.pending.len() == 0 {
            return None;
        }
        Some(&self.pending[self.pending.len() - 1].rel_path)
    }

    /// Takes the listing of the next directory, in any order.
    pub fn take_listing(&mut self, listing: Vec<Entry>)
        requires
            old(self).is_sound(),
            !is_over(old(self).progress()),
        ensures
            final(self).is_sound(),
            final(self).limit() == old(self).limit(),
            final(self).progress() == advanced(
                old(self).progress(),
                listing@,
                old(self).limit(),
            ),
    {
        let ghost p = self.progress();
        let ghost old_dirs = self.walk.dirs@;
        proof {
            lemma_step_is_within(p, listing@, self.limit());
        }
        let mut entries: Vec<Entry> = sort(listing);
        if let Some(place) = self.pending.pop() {
            let ghost at = Place { rel: place.rel@, parts: parts_of(place.rel_path@) };
            assert(at == p.pending.last());
            assert(places_of(self.pending@) == p.pending.drop_last());
            let room: usize = self.max_files - self.walk.files - self.walk.dir_count;
            let n: usize = if entries.len() <= room {
                entries.len()
            } else {
                room
            };
            let ghost seen = visited(entries@, room as int);
            assert(seen == entries@.take(n as int));
            let truncated: bool = entries.len() > room;
            entries.truncate(n);
            assert(entries@ == seen);
            let (files, dirs, subdirs) = survey_dir(&place, &entries);
            self.walk.files = self.walk.files + files;
            self.walk.dir_count = self.walk.dir_count + dirs;
            self.walk.truncated = truncated;
            let ghost base = self.pending@;
            push_reversed(&mut self.pending, subdirs);
            assert(places_of(self.pending@) == places_of(base) + places_of(subdirs@).reverse());
            let dir = Dir { rel: place.rel, rel_path: place.rel_path, entries };
            self.walk.dirs.push(dir);
            assert(visits_of(self.walk.dirs@) == visits_of(old_dirs).push(
                Visit { place: at, entries: entries@ },
            ));
        }
    }

    /// The result of the walk so far: at most as many entries as the limit allows.
    pub fn finish(self) -> (r: Walk)
        ensures
            self.is_sound() ==> count_entries(visits_of(r.dirs@)) <= self.limit(),
            visits_of(r.dirs@) == self.progress().visits,
            r.files == self.progress().files,
            r.dir_count == self.progress().dirs,
            r.truncated == self.progress().truncated,
    {
        self.walk
    }
}

/// A step of a walk keeps within the limit.
pub proof fn lemma_step_is_within(p: Progress, listing: Seq<Entry>, max_files: int)
    requires
        is_within(p, max_files),
    ensures
        is_within(advanced(p, listing, max_files), max_files),
        advanced(p, listing, max_files).truncated ==> count_entries(
            advanced(p, listing, max_files).visits,
        ) == max_files,
{
    let seen = visited(arranged(listing), max_files - p.files - p.dirs);
    let q = advanced(p, listing, max_files);
    lemma_count_dirs(seen);
    assert(q.visits.drop_last() == p.visits);
}

proof fn lemma_count_dirs(entries: Seq<Entry>)
    ensures
        0 <= count_dirs(entries) <= entries.len(),
    decreases entries.len(),
{
    if entries.len() > 0 {
        lemma_count_dirs(entries.drop_last());
    }
}

/// Appends directories, the last first.
fn push_reversed(pending: &mut Vec<Pending>, subdirs: Vec<Pending>)
    ensures
        final(pending)@ == old(pending)@ + subdirs@.reverse(),
{
    let mut left: Vec<Pending> = subdirs;
    let ghost all = left@;
    assert(pending@ == old(pending)@ + all.skip(all.len() as int).reverse());
    while left.len() > 0
        invariant
            left@.len() <= all.len(),
            left@ == all.take(left@.len() as int),
            pending@ == old(pending)@ + all.skip(left@.len() as int).reverse(),
        decreases left@.len(),
    {
        let ghost k = left@.len() as int;
        if let Some(child) = left.pop() {
            pending.push(child);
            assert(all.skip(k - 1).reverse() == all.skip(k).reverse().push(all[k - 1]));
        }
    }
    assert(all.skip(0) == all);
}

/// Counts entries and collects the directories to visit.
fn survey_dir(place: &Pending, entries: &Vec<Entry>) -> (r: (usize, usize, Vec<Pending>))
    ensures
        r.1 == count_dirs(entries@),
        r.0 + r.1 == entries@.len(),
        places_of(r.2@) == children(
            Place { rel: place.rel@, parts: parts_of(place.rel_path@) },
            entries@,
        ),
{
    let ghost at = Place { rel: place.rel@, parts: parts_of(place.rel_path@) };
    let mut files: usize = 0;
    let mut dirs: usize = 0;
    let mut out: Vec<Pending> = Vec::new();
    let mut i: usize = 0;
    assert(places_of(out@) == Seq::<Place>::empty());
    while i < entries.len()
        invariant
            i <= entries@.len(),
            at == (Place { rel: place.rel@, parts: parts_of(place.rel_path@) }),
            dirs == count_dirs(entries@.take(i as int)),
            files + dirs == i,
            places_of(out@) == children(at, entries@.take(i as int)),
        decreases entries@.len() - i,
    {
        let e: &Entry = &entries[i];
        assert(entries@.take(i + 1).drop_last() == entries@.take(i as int));
        if e.is_dir {
            dirs = dirs + 1;
            let git: [u8; 4] = [0x2E, 0x67, 0x69, 0x74];
            assert(git@ == seq![0x2Eu8, 0x67u8, 0x69u8, 0x74u8]);
            if !same_bytes(&e.name, &git) {
                let child = Pending {
                    rel: join_rel(&place.rel, &e.name),
                    rel_path: extend_path(&place.rel_path, &e.name),
                };
                let ghost before = out@;
                out.push(child);
                assert(places_of(out@) == places_of(before).push(
                    Place { rel: child.rel@, parts: parts_of(child.rel_path@) },
                ));
            }
        } else {
            files = files + 1;
        }
        i = i + 1;
    }
    assert(entries@.take(entries@.len() as int) == entries@);
    (files, dirs, out)
}

/// A path with one more component.
fn extend_path(path: &Vec<Vec<u8>>, name: &[u8]) -> (r: Vec<Vec<u8>>)
    ensures
        parts_of(r@) == parts_of(path@).push(name@),
{
    let mut out: Vec<Vec<u8>> = copy_path(path);
    let ghost before = out@;
    out.push(copy_bytes(name));
    assert(parts_of(out@) == parts_of(before).push(name@));
    out
}

/// A copy of a path.
pub fn copy_path(path: &Vec<Vec<u8>>) -> (r: Vec<Vec<u8>>)
    ensures
        parts_of(r@) == parts_of(path@),
{
    let mut out: Vec<Vec<u8>> = Vec::new();
    let mut i: usize = 0;
    while i < path.len()
        invariant
            i <= path@.len(),
            parts_of(out@) == parts_of(path@.take(i as int)),
        decreases path@.len() - i,
    {
        let ghost before = out@;
        out.push(copy_bytes(&path[i]));
        assert(parts_of(out@) == parts_of(before).push(path@[i as int]@));
        assert(parts_of(path@.take(i + 1)) == parts_of(path@.take(i as int)).push(
            path@[i as int]@,
        ));
        i = i + 1;
    }
    assert(path@.take(path@.len() as int) == path@);
    out
}

} // verus!
