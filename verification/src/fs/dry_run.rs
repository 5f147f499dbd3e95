//! What a command run with `--dry-run` announces instead of acting.
use vstd::prelude::*;

use crate::text::{owned, push_str};

verus! {

/// The announcement of a creation.
pub open spec fn create_preview(name: Seq<char>, is_dir: bool) -> Seq<char> {
    "[DRY-RUN] Would create "@ + (if is_dir {
        "directory"@
    } else {
        "file"@
    }) + ": "@ + name
}

/// The announcement of a deletion.
pub open spec fn delete_preview(path: Seq<char>, is_dir: bool) -> Seq<char> {
    "[DRY-RUN] Would delete "@ + (if is_dir {
        "directory"@
    } else {
        "file"@
    }) + ": "@ + path
}

/// The announcement of a rename.
pub open spec fn rename_preview(source: Seq<char>, destination: Seq<char>) -> Seq<char> {
    "[DRY-RUN] Would rename: \n  from: "@ + source + " \n  to: "@ + destination
}

fn kind_word(is_dir: bool) -> (s: &'static str)
    ensures
        s@ == (if is_dir {
            "directory"@
        } else {
            "file"@
        }),
{
    if is_dir {
        "directory"
    } else {
        "file"
    }
}

/// Announces the creation of `name`, a directory where `is_dir`.
pub fn dry_run_create(name: &str, is_dir: bool) -> (s: String)
    ensures
        s@ == create_preview(name@, is_dir),
{
    let mut s = owned("[DRY-RUN] Would create ");
    push_str(&mut s, kind_word(is_dir));
    push_str(&mut s, ": ");
    push_str(&mut s, name);
    s
}

/// Announces the deletion of `path`, a directory where `is_dir`.
pub fn dry_run_delete(path: &str, is_dir: bool) -> (s: String)
    ensures
        s@ == delete_preview(path@, is_dir),
{
    let mut s = owned("[DRY-RUN] Would delete ");
    push_str(&mut s, kind_word(is_dir));
    push_str(&mut s, ": ");
    push_str(&mut s, path);
    s
}

/// Announces the rename of `source` to `destination`.
pub fn dry_run_rename(source: &str, destination: &str) -> (s: String)
    ensures
        s@ == rename_preview(source@, destination@),
{
    let mut s = owned("[DRY-RUN] Would rename: \n  from: ");
    push_str(&mut s, source);
    push_str(&mut s, " \n  to: ");
    push_str(&mut s, destination);
    s
}

} // verus!
