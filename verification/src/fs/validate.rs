//! Entry-name validation that reports an invalid-input failure, as an
//! operating-system call would.
use vstd::prelude::*;

use crate::fs::errors::{IoFailure, IoKind};
use crate::fs::names::{entry_name_problem, name_problem};

verus! {

/// Checks that `name` can name a new entry; a rejected name is an
/// invalid-input failure whose message is the reason (see [`name_problem`]).
pub fn validate_entry_name(name: &str) -> (r: Result<(), IoFailure>)
    ensures
        r is Ok <==> name_problem(name@) is None,
        r matches Err(e) ==> e.kind == IoKind::InvalidInput && name_problem(name@) == Some(
            e.message@,
        ),
{
    match entry_name_problem(name) {
        Some(message) => Err(IoFailure { kind: IoKind::InvalidInput, message }),
        None => Ok(()),
    }
}

} // verus!
