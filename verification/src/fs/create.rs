//! Creating an empty file or a directory, never over an existing entry.
//!
//! The steps: [`create_entry`] checks the name and asks whether the parent
//! directory exists (where the path has one) or directly for the target's
//! metadata; [`CreateParentCheck::on_parent`] and
//! [`CreateTargetLookup::on_lookup`] check those and ask for the creation;
//! [`CreateMake::on_made`] asks for the new entry's metadata and
//! [`CreateFinish::on_lookup`] reports the created entry.
use vstd::prelude::*;

use crate::fs::checks::ensure_path_not_exists;
use crate::fs::errors::{FsError, IoFailure, IoKind};
use crate::fs::names::{
    check_parent_exists, extract_filename, filename_outcome, name_problem, names_valid_entry,
    parent_to_check, parent_to_check_of, validate_entry_name,
};
use crate::fs::types::{build_file_entry, EntryMeta, FileEntry};
use crate::text::owned;

verus! {

/// A creation whose parent directory must be checked.
#[derive(Debug)]
pub struct CreateParentCheck {
    pub target: String,
    pub is_dir: bool,
    pub name: String,
    pub parent: String,
}

/// A creation whose target must be looked up (it must not exist).
#[derive(Debug)]
pub struct CreateTargetLookup {
    pub target: String,
    pub is_dir: bool,
    pub name: String,
}

/// A creation that passed every check; the entry must be made.
#[derive(Debug)]
pub struct CreateMake {
    pub target: String,
    /// Whether to make a directory (else an empty file).
    pub is_dir: bool,
    pub name: String,
}

/// A created entry whose metadata must be read.
#[derive(Debug)]
pub struct CreateFinish {
    pub target: String,
    pub name: String,
}

/// The step after the name was accepted.
#[derive(Debug)]
pub enum CreateNext {
    CheckParent(CreateParentCheck),
    LookupTarget(CreateTargetLookup),
}

/// Starts creating an entry at `path` (a directory where `is_dir`): the path
/// must name an entry with a valid name.
pub fn create_entry(path: &str, is_dir: bool) -> (r: Result<CreateNext, FsError>)
    ensures
        r is Ok <==> names_valid_entry(path@),
        match r {
            Ok(CreateNext::CheckParent(step)) => parent_to_check_of(path@) == Some(step.parent@)
                && step.target@ == path@ && step.is_dir == is_dir && filename_outcome(path@)
                == Ok::<Seq<char>, Seq<char>>(step.name@),
            Ok(CreateNext::LookupTarget(step)) => parent_to_check_of(path@) is None
                && step.target@ == path@ && step.is_dir == is_dir && filename_outcome(path@)
                == Ok::<Seq<char>, Seq<char>>(step.name@),
            Err(e) => e matches FsError::InvalidName { reason } && match filename_outcome(path@) {
                Err(why) => reason@ == why,
                Ok(n) => name_problem(n) == Some(reason@),
            },
        },
{
    let name = extract_filename(path)?;
    validate_entry_name(name.as_str())?;
    match parent_to_check(path) {
        Some(parent) => Ok(
            CreateNext::CheckParent(CreateParentCheck { target: owned(path), is_dir, name, parent }),
        ),
        None => Ok(CreateNext::LookupTarget(CreateTargetLookup { target: owned(path), is_dir, name })),
    }
}

impl CreateParentCheck {
    /// Goes on where the parent exists; else `ParentNotFound`.
    pub fn on_parent(self, exists: bool) -> (r: Result<CreateTargetLookup, FsError>)
        ensures
            r is Ok <==> exists,
            r matches Ok(step) ==> step.target@ == self.target@ && step.is_dir == self.is_dir
                && step.name@ == self.name@,
            r matches Err(e) ==> e matches FsError::ParentNotFound { path } && path@
                == self.parent@,
    {
        check_parent_exists(self.parent.as_str(), exists)?;
        Ok(CreateTargetLookup { target: self.target, is_dir: self.is_dir, name: self.name })
    }
}

/// The label of an entry of that type in messages.
pub open spec fn entry_label(is_dir: bool) -> Seq<char> {
    if is_dir {
        "Directory"@
    } else {
        "File"@
    }
}

impl CreateTargetLookup {
    /// Goes on only where nothing exists at the target: an existing entry is
    /// `AlreadyExists` labelled "Directory" or "File"; a failed lookup other
    /// than `NotFound` is returned.
    pub fn on_lookup(self, lookup: Result<EntryMeta, IoFailure>) -> (r: Result<CreateMake, FsError>)
        ensures
            r is Ok <==> (lookup matches Err(f) && f.kind == IoKind::NotFound),
            r matches Ok(step) ==> step.target@ == self.target@ && step.is_dir == self.is_dir
                && step.name@ == self.name@,
            lookup is Ok ==> (r matches Err(FsError::AlreadyExists { label, path }) && label@
                == entry_label(self.is_dir) && path@ == self.target@),
            match lookup {
                Err(f) => f.kind != IoKind::NotFound ==> (r matches Err(FsError::Io(g)) && g
                    == f),
                Ok(_) => true,
            },
    {
        let label = if self.is_dir {
            "Directory"
        } else {
            "File"
        };
        ensure_path_not_exists(self.target.as_str(), label, lookup)?;
        Ok(CreateMake { target: self.target, is_dir: self.is_dir, name: self.name })
    }
}

impl CreateMake {
    /// Goes on to read the new entry where it was made; a failure is returned.
    pub fn on_made(self, made: Result<(), IoFailure>) -> (r: Result<CreateFinish, FsError>)
        ensures
            r is Ok <==> made is Ok,
            r matches Ok(step) ==> step.target@ == self.target@ && step.name@ == self.name@,
            match made {
                Err(f) => r matches Err(FsError::Io(g)) && g == f,
                Ok(_) => true,
            },
    {
        match made {
            Ok(()) => Ok(CreateFinish { target: self.target, name: self.name }),
            Err(f) => Err(FsError::Io(f)),
        }
    }
}

impl CreateFinish {
    /// Ends the creation: the new entry with the metadata read, or the failure.
    pub fn on_lookup(self, lookup: Result<EntryMeta, IoFailure>) -> (r: Result<FileEntry, FsError>)
        ensures
            match lookup {
                Ok(m) => r matches Ok(e) && e.name == self.name && e.size == m.len && e.is_dir
                    == m.is_dir,
                Err(f) => r matches Err(FsError::Io(g)) && g == f,
            },
    {
        match lookup {
            Ok(m) => Ok(build_file_entry(self.name, m)),
            Err(f) => Err(FsError::Io(f)),
        }
    }
}

} // verus!
