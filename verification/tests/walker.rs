//! Walks over directory trees.

use namefence::walker::{Entry, Walk, Walker};

/// The entries of the directory `dir` in a tree given by its files.
fn listing(files: &[&str], dir: &[Vec<u8>]) -> Vec<Entry> {
    let mut out: Vec<Entry> = Vec::new();
    for file in files {
        let parts: Vec<&[u8]> = file.as_bytes().split(|&b| b == b'/').collect();
        if parts.len() > dir.len() && dir.iter().zip(&parts).all(|(a, b)| a == b) {
            let name = parts[dir.len()].to_vec();
            let is_dir = parts.len() > dir.len() + 1;
            if !out.iter().any(|e| e.name == name) {
                out.push(Entry { name, is_dir });
            }
        }
    }
    out
}

fn walk(files: &[&str], max_files: usize) -> Walk {
    let mut walker = Walker::new(max_files);
    while let Some(dir) = walker.next_dir() {
        let entries = listing(files, dir);
        walker.take_listing(entries);
    }
    walker.finish()
}

#[test]
fn walk_is_sorted_and_complete() {
    let walk = walk(&["z.txt", "b/inner/deep.txt", "a/1.txt"], 100_000);
    let rels: Vec<&str> = walk.dirs.iter().map(|d| d.rel.as_str()).collect();
    assert_eq!(rels, ["", "a", "b", "b/inner"]);
    assert_eq!(walk.files, 3);
    assert_eq!(walk.dir_count, 3);
    assert!(!walk.truncated);
    // Entries of the root are sorted by byte value.
    let names: Vec<String> = walk.dirs[0]
        .entries
        .iter()
        .map(|e| String::from_utf8_lossy(&e.name).into_owned())
        .collect();
    assert_eq!(names, ["a", "b", "z.txt"]);
    assert_eq!(walk.dirs[3].rel_path, [b"b".to_vec(), b"inner".to_vec()]);
}

#[test]
fn git_directories_are_not_descended() {
    let walk = walk(&[".git/objects/aux", "real.txt"], 100_000);
    assert!(walk.dirs.iter().all(|d| !d.rel.starts_with(".git")));
    // .git itself is still listed as an entry of the root (its NAME is
    // checkable), its contents are not.
    assert!(walk.dirs[0].entries.iter().any(|e| e.name == b".git"));
    assert_eq!(walk.dir_count, 1);
}

#[test]
fn max_files_truncates_honestly() {
    let files: Vec<String> = (0..20).map(|i| format!("f{i:02}.txt")).collect();
    let refs: Vec<&str> = files.iter().map(|f| f.as_str()).collect();
    let walk = walk(&refs, 5);
    assert!(walk.truncated);
    assert_eq!(walk.files, 5);
}

#[test]
fn a_limit_that_is_just_met_does_not_truncate() {
    let exact = walk(&["a/x", "b"], 3);
    assert!(!exact.truncated);
    assert_eq!((exact.files, exact.dir_count), (2, 1));
    let short = walk(&["a/x", "b"], 2);
    assert!(short.truncated);
    assert_eq!((short.files, short.dir_count), (1, 1));
    assert_eq!(short.dirs.len(), 2);
    assert_eq!(short.dirs[1].entries.len(), 0);
    let none = walk(&["a"], 0);
    assert!(none.truncated);
    assert_eq!((none.files, none.dir_count), (0, 0));
    assert_eq!(none.dirs[0].entries.len(), 0);
}

#[test]
fn an_empty_root_is_one_directory() {
    let walk = walk(&[], 10);
    assert_eq!(walk.dirs.len(), 1);
    assert_eq!(walk.dirs[0].rel, "");
    assert!(walk.dirs[0].entries.is_empty());
    assert!(!walk.truncated);
}

#[test]
fn a_deep_tree_is_visited_depth_first() {
    let walk = walk(&["b/c/1", "b/a/2", "a/z/3", "a!/4"], 100);
    let rels: Vec<&str> = walk.dirs.iter().map(|d| d.rel.as_str()).collect();
    assert_eq!(rels, ["", "a", "a/z", "a!", "b", "b/a", "b/c"]);
}

#[test]
fn the_order_of_reading_does_not_matter() {
    let files = ["z.txt", "b/inner/deep.txt", "a/1.txt", "B/x", "b/a", "a/0.txt"];
    let mut backwards = files;
    backwards.reverse();
    for limit in [0, 1, 4, 100] {
        let one = walk(&files, limit);
        let other = walk(&backwards, limit);
        assert_eq!(one.files, other.files);
        assert_eq!(one.dir_count, other.dir_count);
        assert_eq!(one.truncated, other.truncated);
        assert_eq!(one.dirs.len(), other.dirs.len());
        for (d, e) in one.dirs.iter().zip(&other.dirs) {
            assert_eq!(d.rel, e.rel);
            assert_eq!(d.rel_path, e.rel_path);
            let names: Vec<&Vec<u8>> = d.entries.iter().map(|x| &x.name).collect();
            let others: Vec<&Vec<u8>> = e.entries.iter().map(|x| &x.name).collect();
            assert_eq!(names, others);
        }
    }
}

#[test]
fn a_walk_stops_at_its_limit() {
    let files = ["a/1", "a/2", "b/3", "c"];
    for limit in 0..8 {
        let found = walk(&files, limit);
        assert!(found.files + found.dir_count <= limit);
        let listed: usize = found.dirs.iter().map(|d| d.entries.len()).sum();
        assert_eq!(listed, found.files + found.dir_count);
        assert_eq!(found.truncated, limit < 6);
        if found.truncated {
            assert_eq!(found.files + found.dir_count, limit);
        }
    }
}

#[test]
fn a_limit_keeps_the_first_entries() {
    let files: Vec<String> = (0..20).rev().map(|i| format!("f{i:02}.txt")).collect();
    let refs: Vec<&str> = files.iter().map(|f| f.as_str()).collect();
    let found = walk(&refs, 5);
    assert!(found.truncated);
    assert_eq!(found.dirs.len(), 1);
    let names: Vec<&[u8]> = found.dirs[0].entries.iter().map(|e| &e.name[..]).collect();
    let first: [&[u8]; 5] = [b"f00.txt", b"f01.txt", b"f02.txt", b"f03.txt", b"f04.txt"];
    assert_eq!(names, first);
}

#[test]
fn a_whole_walk_goes_through_the_tree_in_order() {
    let found = walk(
        &["b/.git/x/y", "b/B/1", "a/z/3", "a!/4", "a/y/.git/5", "B/2", "c"],
        100,
    );
    let mut paths: Vec<Vec<Vec<u8>>> = found.dirs.iter().map(|d| d.rel_path.clone()).collect();
    let shown = paths.clone();
    paths.sort();
    paths.dedup();
    assert_eq!(paths, shown);
    let rels: Vec<&str> = found.dirs.iter().map(|d| d.rel.as_str()).collect();
    assert_eq!(rels, ["", "B", "a", "a/y", "a/z", "a!", "b", "b/B"]);
}
