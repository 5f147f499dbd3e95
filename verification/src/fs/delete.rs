//! Deleting a file or an (empty) directory.
//!
//! The command runs in three steps, each a function from what the previous
//! step decided and what the file system answered to the next request:
//! [`delete_entry`] checks the name and asks for the target's metadata,
//! [`DeleteLookup::on_lookup`] checks that the target has the expected type
//! and asks for its removal, [`DeleteRemoval::on_removed`] reports the result.
use vstd::prelude::*;

use crate::fs::checks::ensure_path_exists;
use crate::fs::errors::{FsError, IoFailure, IoKind};
use crate::fs::names::{
    extract_filename, filename_outcome, name_problem, names_valid_entry, validate_entry_name,
};
use crate::fs::types::{build_file_entry, EntryMeta, FileEntry};
use crate::text::{owned, push_str};

verus! {

/// A deletion whose name was accepted; its target must be looked up.
#[derive(Debug)]
pub struct DeleteLookup {
    /// The path to look up and remove.
    pub target: String,
    pub expect_dir: bool,
    pub name: String,
}

/// A deletion whose target was found with the expected type; it must be removed.
#[derive(Debug)]
pub struct DeleteRemoval {
    /// The path to remove.
    pub target: String,
    /// Whether to remove a directory (else a file).
    pub remove_dir: bool,
    pub name: String,
    pub meta: EntryMeta,
}

/// Starts deleting the entry at `path`, expected to be a directory where
/// `expect_dir`: fails where the path names no entry or an invalid name.
pub fn delete_entry(path: &str, expect_dir: bool) -> (r: Result<DeleteLookup, FsError>)
    ensures
        r is Ok <==> names_valid_entry(path@),
        r matches Ok(step) ==> step.target@ == path@ && step.expect_dir == expect_dir
            && filename_outcome(path@) == Ok::<Seq<char>, Seq<char>>(step.name@),
        r matches Err(e) ==> e matches FsError::InvalidName { reason } && (match filename_outcome(
            path@,
        ) {
            Err(why) => reason@ == why,
            Ok(name) => name_problem(name) == Some(reason@),
        }),
{
    let name = extract_filename(path)?;
    validate_entry_name(name.as_str())?;
    Ok(DeleteLookup { target: owned(path), expect_dir, name })
}

/// The message for a target of the wrong type.
pub open spec fn mismatch_message(target: Seq<char>, expect_dir: bool) -> Seq<char> {
    if expect_dir {
        "Target is a file. Remove `--dir` to delete files: "@ + target
    } else {
        "Target is a directory. Use `--dir` to delete directories: "@ + target
    }
}

/// Checks what looking up the target of a deletion gave: it must exist
/// (else `NotFound` labelled "Target", or the failure) and be a directory
/// exactly where one is expected (else `TypeMismatch`).
pub fn validate_deletion_target(target: &str, expect_dir: bool, lookup: Result<EntryMeta, IoFailure>) -> (r:
    Result<EntryMeta, FsError>)
    ensures
        r is Ok <==> (lookup matches Ok(m) && m.is_dir == expect_dir),
        r matches Ok(m) ==> lookup == Ok::<EntryMeta, IoFailure>(m),
        match lookup {
            Ok(m) => m.is_dir != expect_dir ==> (r matches Err(FsError::TypeMismatch { message })
                && message@ == mismatch_message(target@, expect_dir)),
            Err(f) => if f.kind == IoKind::NotFound {
                r matches Err(FsError::NotFound { label, path }) && label@ == "Target"@ && path@
                    == target@
            } else {
                r matches Err(FsError::Io(g)) && g == f
            },
        },
{
    let meta = ensure_path_exists(target, "Target", lookup)?;
    if expect_dir && !meta.is_dir {
        let mut message = owned("Target is a file. Remove `--dir` to delete files: ");
        push_str(&mut message, target);
        return Err(FsError::TypeMismatch { message });
    }
    if !expect_dir && meta.is_dir {
        let mut message = owned("Target is a directory. Use `--dir` to delete directories: ");
        push_str(&mut message, target);
        return Err(FsError::TypeMismatch { message });
    }
    Ok(meta)
}

/// The result of removing `target`: a directory that is not empty is reported
/// as such, any other failure as it is.
pub fn execute_deletion(target: &str, is_dir: bool, removal: Result<(), IoFailure>) -> (r: Result<(), FsError>)
    ensures
        r is Ok <==> removal is Ok,
        match removal {
            Err(f) => if is_dir && f.kind == IoKind::DirectoryNotEmpty {
                r matches Err(FsError::DirectoryNotEmpty { path }) && path@ == target@
            } else {
                r matches Err(FsError::Io(g)) && g == f
            },
            Ok(_) => true,
        },
{
    match removal {
        Ok(()) => Ok(()),
        Err(f) => {
            if is_dir && f.kind == IoKind::DirectoryNotEmpty {
                Err(FsError::DirectoryNotEmpty { path: owned(target) })
            } else {
                Err(FsError::Io(f))
            }
        },
    }
}

impl DeleteLookup {
    /// Goes on with what looking up the target gave: a target of the expected
    /// type is to be removed, anything else ends the deletion with the error of
    /// [`validate_deletion_target`].
    pub fn on_lookup(self, lookup: Result<EntryMeta, IoFailure>) -> (r: Result<DeleteRemoval, FsError>)
        ensures
            r is Ok <==> (lookup matches Ok(m) && m.is_dir == self.expect_dir),
            r matches Ok(step) ==> step.target@ == self.target@ && step.name@ == self.name@
                && lookup == Ok::<EntryMeta, IoFailure>(step.meta) && step.remove_dir
                == self.expect_dir,
            match lookup {
                Ok(m) => m.is_dir != self.expect_dir ==> (r matches Err(
                    FsError::TypeMismatch { message },
                ) && message@ == mismatch_message(self.target@, self.expect_dir)),
                Err(f) => if f.kind == IoKind::NotFound {
                    r matches Err(FsError::NotFound { label, path }) && label@ == "Target"@
                        && path@ == self.target@
                } else {
                    r matches Err(FsError::Io(g)) && g == f
                },
            },
    {
        let meta = validate_deletion_target(self.target.as_str(), self.expect_dir, lookup)?;
        Ok(DeleteRemoval { target: self.target, remove_dir: meta.is_dir, name: self.name, meta })
    }
}

impl DeleteRemoval {
    /// Ends the deletion with what the removal gave: the removed entry, or the
    /// error of [`execute_deletion`].
    pub fn on_removed(self, removal: Result<(), IoFailure>) -> (r: Result<FileEntry, FsError>)
        ensures
            r is Ok <==> removal is Ok,
            r matches Ok(e) ==> e.name == self.name && e.size == self.meta.len && e.is_dir
                == self.meta.is_dir,
            match removal {
                Err(f) => if self.remove_dir && f.kind == IoKind::DirectoryNotEmpty {
                    r matches Err(FsError::DirectoryNotEmpty { path }) && path@ == self.target@
                } else {
                    r matches Err(FsError::Io(g)) && g == f
                },
                Ok(_) => true,
            },
    {
        execute_deletion(self.target.as_str(), self.remove_dir, removal)?;
        Ok(build_file_entry(self.name, self.meta))
    }
}

} // verus!
