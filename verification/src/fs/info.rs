//! Reading the metadata of one entry.
use vstd::prelude::*;

use crate::fs::errors::{FsError, IoFailure};
use crate::fs::names::{extract_filename, filename_outcome};
use crate::fs::types::{build_file_entry, EntryMeta, FileEntry};
use crate::text::owned;

verus! {

/// An entry whose metadata must be read.
#[derive(Debug)]
pub struct InfoLookup {
    pub target: String,
    pub name: String,
}

/// Starts reading the entry at `path`: the path must name an entry.
pub fn get_file_info(path: &str) -> (r: Result<InfoLookup, FsError>)
    ensures
        r is Ok <==> filename_outcome(path@) is Ok,
        match r {
            Ok(step) => step.target@ == path@ && filename_outcome(path@) == Ok::<
                Seq<char>,
                Seq<char>,
            >(step.name@),
            Err(e) => e matches FsError::InvalidName { reason } && filename_outcome(path@)
                == Err::<Seq<char>, Seq<char>>(reason@),
        },
{
    let name = extract_filename(path)?;
    Ok(InfoLookup { target: owned(path), name })
}

impl InfoLookup {
    /// Ends with the entry and the metadata read, or the failure.
    pub fn on_lookup(self, lookup: Result<EntryMeta, IoFailure>) -> (r: Result<FileEntry, FsError>)
        ensures
            match lookup {
                Ok(m) => r matches Ok(e) && e.name == self.name && e.size == m.len && e.is_dir
                    == m.is_dir,
                Err(f) => r matches Err(FsError::Io(g)) && g == f,
            },
    {
        match lookup {
            Ok(m) => Ok(build_file_entry(self.name, m)),
            Err(f) => Err(FsError::Io(f)),
        }
    }
}

} // verus!
