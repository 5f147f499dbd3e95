//! Renaming or moving a file or directory, never over an existing entry.
//!
//! The steps: [`rename_entry`] refuses identical paths and asks for the
//! source's metadata; [`RenameSourceLookup::on_lookup`] checks the source and
//! the new name, then asks whether the destination's parent exists (where it
//! has one) or directly for the destination's metadata;
//! [`RenameParentCheck::on_parent`] and [`RenameDestinationLookup::on_lookup`]
//! check those; [`RenameMove::on_moved`] reports the result of the move.
use vstd::prelude::*;

use crate::fs::checks::{ensure_path_exists, ensure_path_not_exists};
use crate::fs::errors::{FsError, IoFailure, IoKind};
use crate::fs::names::{
    check_parent_exists, extract_filename, filename_outcome, name_problem, parent_to_check,
    parent_to_check_of, names_valid_entry, paths_equal, same_path, validate_entry_name,
};
use crate::fs::types::{build_file_entry, EntryMeta, FileEntry};
use crate::text::{owned, push_str};

verus! {

/// A rename whose paths differ; the source must be looked up.
#[derive(Debug)]
pub struct RenameSourceLookup {
    pub source: String,
    pub destination: String,
}

/// A rename whose source exists and whose new name is valid; the parent
/// directory of the destination must be checked.
#[derive(Debug)]
pub struct RenameParentCheck {
    pub source: String,
    pub destination: String,
    pub parent: String,
    pub dest_name: String,
    pub source_meta: EntryMeta,
}

/// A rename whose destination must be looked up (it must not exist).
#[derive(Debug)]
pub struct RenameDestinationLookup {
    pub source: String,
    pub destination: String,
    pub dest_name: String,
    pub source_meta: EntryMeta,
}

/// A rename that passed every check; the entry must be moved.
#[derive(Debug)]
pub struct RenameMove {
    pub source: String,
    pub destination: String,
    pub dest_name: String,
    pub source_meta: EntryMeta,
}

/// The step after the source was found.
#[derive(Debug)]
pub enum RenameNext {
    CheckParent(RenameParentCheck),
    LookupDestination(RenameDestinationLookup),
}

/// Starts renaming `source` to `destination`: identical paths are an
/// invalid-input failure.
pub fn rename_entry(source: &str, destination: &str) -> (r: Result<RenameSourceLookup, FsError>)
    ensures
        r is Ok <==> !same_path(source@, destination@),
        source@ == destination@ ==> r is Err,
        r matches Ok(step) ==> step.source@ == source@ && step.destination@ == destination@,
        r matches Err(e) ==> e matches FsError::Io(f) && f.kind == IoKind::InvalidInput
            && f.message@ == "Source and destination paths are identical"@,
{
    if paths_equal(source, destination) {
        return Err(
            FsError::Io(
                IoFailure {
                    kind: IoKind::InvalidInput,
                    message: owned("Source and destination paths are identical"),
                },
            ),
        );
    }
    Ok(RenameSourceLookup { source: owned(source), destination: owned(destination) })
}

impl RenameSourceLookup {
    /// Goes on with what looking up the source gave: the source must exist
    /// (else `NotFound` labelled "Source", or the failure), and the destination
    /// must name an entry with a valid name (else `InvalidName`).
    pub fn on_lookup(self, lookup: Result<EntryMeta, IoFailure>) -> (r: Result<RenameNext, FsError>)
        ensures
            r is Ok <==> (lookup is Ok && names_valid_entry(self.destination@)),
            match lookup {
                Err(f) => if f.kind == IoKind::NotFound {
                    r matches Err(FsError::NotFound { label, path }) && label@ == "Source"@
                        && path@ == self.source@
                } else {
                    r matches Err(FsError::Io(g)) && g == f
                },
                Ok(m) => match r {
                    Ok(RenameNext::CheckParent(step)) => parent_to_check_of(self.destination@)
                        == Some(step.parent@) && step.source@ == self.source@
                        && step.destination@ == self.destination@ && filename_outcome(
                        self.destination@,
                    ) == Ok::<Seq<char>, Seq<char>>(step.dest_name@) && step.source_meta == m,
                    Ok(RenameNext::LookupDestination(step)) => parent_to_check_of(
                        self.destination@,
                    ) is None && step.source@ == self.source@ && step.destination@
                        == self.destination@ && filename_outcome(self.destination@) == Ok::<
                        Seq<char>,
                        Seq<char>,
                    >(step.dest_name@) && step.source_meta == m,
                    Err(e) => e matches FsError::InvalidName { reason } && match filename_outcome(
                        self.destination@,
                    ) {
                        Err(why) => reason@ == why,
                        Ok(n) => name_problem(n) == Some(reason@),
                    },
                },
            },
    {
        let source_meta = ensure_path_exists(self.source.as_str(), "Source", lookup)?;
        let dest_name = extract_filename(self.destination.as_str())?;
        validate_entry_name(dest_name.as_str())?;
        match parent_to_check(self.destination.as_str()) {
            Some(parent) => Ok(
                RenameNext::CheckParent(
                    RenameParentCheck {
                        source: self.source,
                        destination: self.destination,
                        parent,
                        dest_name,
                        source_meta,
                    },
                ),
            ),
            None => Ok(
                RenameNext::LookupDestination(
                    RenameDestinationLookup {
                        source: self.source,
                        destination: self.destination,
                        dest_name,
                        source_meta,
                    },
                ),
            ),
        }
    }
}

impl RenameParentCheck {
    /// Goes on where the destination's parent exists; else `ParentNotFound`.
    pub fn on_parent(self, exists: bool) -> (r: Result<RenameDestinationLookup, FsError>)
        ensures
            r is Ok <==> exists,
            r matches Ok(step) ==> step.source@ == self.source@ && step.destination@
                == self.destination@ && step.dest_name@ == self.dest_name@ && step.source_meta
                == self.source_meta,
            r matches Err(e) ==> e matches FsError::ParentNotFound { path } && path@
                == self.parent@,
    {
        check_parent_exists(self.parent.as_str(), exists)?;
        Ok(
            RenameDestinationLookup {
                source: self.source,
                destination: self.destination,
                dest_name: self.dest_name,
                source_meta: self.source_meta,
            },
        )
    }
}

impl RenameDestinationLookup {
    /// Goes on only where nothing exists at the destination: an existing
    /// destination is `AlreadyExists` labelled "Destination", so that nothing
    /// is ever overwritten; a failed lookup other than `NotFound` is returned.
    pub fn on_lookup(self, lookup: Result<EntryMeta, IoFailure>) -> (r: Result<RenameMove, FsError>)
        ensures
            r is Ok <==> (lookup matches Err(f) && f.kind == IoKind::NotFound),
            r matches Ok(step) ==> step.source@ == self.source@ && step.destination@
                == self.destination@ && step.dest_name@ == self.dest_name@ && step.source_meta
                == self.source_meta,
            lookup is Ok ==> (r matches Err(FsError::AlreadyExists { label, path }) && label@
                == "Destination"@ && path@ == self.destination@),
            match lookup {
                Err(f) => f.kind != IoKind::NotFound ==> (r matches Err(FsError::Io(g)) && g
                    == f),
                Ok(_) => true,
            },
    {
        ensure_path_not_exists(self.destination.as_str(), "Destination", lookup)?;
        Ok(
            RenameMove {
                source: self.source,
                destination: self.destination,
                dest_name: self.dest_name,
                source_meta: self.source_meta,
            },
        )
    }
}

/// The error for a failed move to `destination`: a move across file systems
/// and a refused permission get messages of their own.
pub open spec fn move_failure(destination: Seq<char>, f: IoFailure) -> (IoKind, Seq<char>) {
    if f.kind == IoKind::CrossesDevices {
        (IoKind::InvalidInput, "Cannot rename across filesystems (use copy+delete instead)"@)
    } else if f.kind == IoKind::PermissionDenied {
        (IoKind::PermissionDenied, "Permission denied to rename: "@ + destination)
    } else {
        (f.kind, f.message@)
    }
}

/// The result of moving an entry to `destination` (see [`move_failure`]).
pub fn execute_rename(destination: &str, moved: Result<(), IoFailure>) -> (r: Result<(), FsError>)
    ensures
        r is Ok <==> moved is Ok,
        match moved {
            Err(f) => r matches Err(FsError::Io(g)) && (g.kind, g.message@) == move_failure(
                destination@,
                f,
            ),
            Ok(_) => true,
        },
{
    match moved {
        Ok(()) => Ok(()),
        Err(f) => {
            if f.kind == IoKind::CrossesDevices {
                Err(
                    FsError::Io(
                        IoFailure {
                            kind: IoKind::InvalidInput,
                            message: owned(
                                "Cannot rename across filesystems (use copy+delete instead)",
                            ),
                        },
                    ),
                )
            } else if f.kind == IoKind::PermissionDenied {
                let mut message = owned("Permission denied to rename: ");
                push_str(&mut message, destination);
                Err(FsError::Io(IoFailure { kind: IoKind::PermissionDenied, message }))
            } else {
                Err(FsError::Io(f))
            }
        },
    }
}

impl RenameMove {
    /// Ends the rename with what the move gave: the entry under its new name
    /// with the source's metadata, or the error of [`execute_rename`].
    pub fn on_moved(self, moved: Result<(), IoFailure>) -> (r: Result<FileEntry, FsError>)
        ensures
            r is Ok <==> moved is Ok,
            r matches Ok(e) ==> e.name == self.dest_name && e.size == self.source_meta.len
                && e.is_dir == self.source_meta.is_dir,
            match moved {
                Err(f) => r matches Err(FsError::Io(g)) && (g.kind, g.message@) == move_failure(
                    self.destination@,
                    f,
                ),
                Ok(_) => true,
            },
    {
        execute_rename(self.destination.as_str(), moved)?;
        Ok(build_file_entry(self.dest_name, self.source_meta))
    }
}

} // verus!
