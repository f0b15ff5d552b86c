# namefence

A linter for filenames that will break on Windows, macOS or cloud sync, and a
planner of collision-safe renames for them, verified with Verus.

- `src/` is the library. Every function states what it returns in its contract,
  and the laws of the library are proof functions whose names begin with `law_`.
- `tests/` runs the library on concrete names and trees.
- `app/` is the command-line program: it reads arguments, directories and
  standard input, prints what the library answers, and carries out renames.

The checks are in `checks.rs` and their catalogue in `rules.rs`. `fixname.rs`
holds the fixes and the rename plan, `engine.rs` and `paths.rs` the scans of
trees and of path lists, `walker.rs` the order of a walk. `cli.rs` reads arguments
and writes replies, and `run.rs` says what a run does step by step and which exit
code it ends in. `unicode.rs` and its tables normalize text as Unicode 14.0 says.

What is taken on trust is small, and all of it about `std`: `String::push`,
`char::from_u32`, `char::to_lowercase`, `str::from_utf8` and
`String::from_utf8_lossy`, each stated beside the function that makes the call.
