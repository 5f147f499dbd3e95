//! Decisions on what the file system reported about a path.
use vstd::prelude::*;

use crate::fs::errors::{FsError, IoFailure, IoKind};
use crate::fs::types::EntryMeta;
use crate::text::owned;

verus! {

/// Requires that `path` exists, given what looking it up gave: its metadata,
/// a `NotFound` error naming it with `label` where it is missing, or the
/// failure itself.
pub fn ensure_path_exists(path: &str, label: &str, lookup: Result<EntryMeta, IoFailure>) -> (r:
    Result<EntryMeta, FsError>)
    ensures
        match lookup {
            Ok(m) => r == Ok::<EntryMeta, FsError>(m),
            Err(f) => if f.kind == IoKind::NotFound {
                r matches Err(FsError::NotFound { label: l, path: p }) && l@ == label@ && p@
                    == path@
            } else {
                r matches Err(FsError::Io(g)) && g == f
            },
        },
{
    match lookup {
        Ok(m) => Ok(m),
        Err(f) => {
            if f.kind == IoKind::NotFound {
                Err(FsError::NotFound { path: owned(path), label: owned(label) })
            } else {
                Err(FsError::Io(f))
            }
        },
    }
}

/// Requires that nothing exists at `path`, given what looking it up gave:
/// `Ok` where the lookup found nothing, `AlreadyExists` naming it with `label`
/// where it found something, else the failure itself.
pub fn ensure_path_not_exists(path: &str, label: &str, lookup: Result<EntryMeta, IoFailure>) -> (r:
    Result<(), FsError>)
    ensures
        r is Ok <==> (lookup matches Err(f) && f.kind == IoKind::NotFound),
        lookup is Ok ==> (r matches Err(FsError::AlreadyExists { label: l, path: p }) && l@
            == label@ && p@ == path@),
        match lookup {
            Err(f) => f.kind != IoKind::NotFound ==> (r matches Err(FsError::Io(g)) && g == f),
            Ok(_) => true,
        },
{
    match lookup {
        Ok(_) => Err(FsError::AlreadyExists { path: owned(path), label: owned(label) }),
        Err(f) => {
            if f.kind == IoKind::NotFound {
                Ok(())
            } else {
                Err(FsError::Io(f))
            }
        },
    }
}

} // verus!
