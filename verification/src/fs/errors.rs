//! Errors of the file-system commands.
use vstd::prelude::*;

use crate::text::{push_str};

verus! {

/// The kinds of operating-system failure (those of `std::io::ErrorKind`;
/// `Uncategorized` stands for any other).
#[derive(Clone, Copy, Debug, PartialEq, Eq, Structural)]
pub enum IoKind {
    NotFound,
    PermissionDenied,
    ConnectionRefused,
    ConnectionReset,
    HostUnreachable,
    NetworkUnreachable,
    ConnectionAborted,
    NotConnected,
    AddrInUse,
    AddrNotAvailable,
    NetworkDown,
    BrokenPipe,
    AlreadyExists,
    WouldBlock,
    NotADirectory,
    IsADirectory,
    DirectoryNotEmpty,
    ReadOnlyFilesystem,
    StaleNetworkFileHandle,
    InvalidInput,
    InvalidData,
    TimedOut,
    WriteZero,
    StorageFull,
    NotSeekable,
    QuotaExceeded,
    FileTooLarge,
    ResourceBusy,
    ExecutableFileBusy,
    Deadlock,
    CrossesDevices,
    TooManyLinks,
    InvalidFilename,
    ArgumentListTooLong,
    Interrupted,
    Unsupported,
    UnexpectedEof,
    OutOfMemory,
    Other,
    Uncategorized,
}

/// A failed operating-system call: its kind and its message.
#[derive(Debug)]
pub struct IoFailure {
    pub kind: IoKind,
    pub message: String,
}

/// Why a file-system command failed.
#[derive(Debug)]
pub enum FsError {
    NotFound { label: String, path: String },
    AlreadyExists { label: String, path: String },
    InvalidName { reason: String },
    ParentNotFound { path: String },
    TypeMismatch { message: String },
    DirectoryNotEmpty { path: String },
    CrossesFilesystem { src: String, dest: String },
    InvalidGlob { pattern: String, reason: String },
    Io(IoFailure),
}

/// Two errors are equal when they are of the same variant with equal texts;
/// two operating-system failures are equal when their kinds are.
pub open spec fn same_error(a: FsError, b: FsError) -> bool {
    match (a, b) {
        (
            FsError::NotFound { label: l1, path: p1 },
            FsError::NotFound { label: l2, path: p2 },
        ) => l1@ == l2@ && p1@ == p2@,
        (
            FsError::AlreadyExists { label: l1, path: p1 },
            FsError::AlreadyExists { label: l2, path: p2 },
        ) => l1@ == l2@ && p1@ == p2@,
        (FsError::InvalidName { reason: r1 }, FsError::InvalidName { reason: r2 }) => r1@ == r2@,
        (FsError::ParentNotFound { path: p1 }, FsError::ParentNotFound { path: p2 }) => p1@ == p2@,
        (FsError::TypeMismatch { message: m1 }, FsError::TypeMismatch { message: m2 }) => m1@
            == m2@,
        (FsError::DirectoryNotEmpty { path: p1 }, FsError::DirectoryNotEmpty { path: p2 }) => p1@
            == p2@,
        (
            FsError::CrossesFilesystem { src: s1, dest: d1 },
            FsError::CrossesFilesystem { src: s2, dest: d2 },
        ) => s1@ == s2@ && d1@ == d2@,
        (
            FsError::InvalidGlob { pattern: p1, reason: r1 },
            FsError::InvalidGlob { pattern: p2, reason: r2 },
        ) => p1@ == p2@ && r1@ == r2@,
        (FsError::Io(e1), FsError::Io(e2)) => e1.kind == e2.kind,
        _ => false,
    }
}

impl PartialEq for FsError {
    fn eq(&self, other: &Self) -> (r: bool) {
        match (self, other) {
            (
                FsError::NotFound { label: l1, path: p1 },
                FsError::NotFound { label: l2, path: p2 },
            ) => *l1 == *l2 && *p1 == *p2,
            (
                FsError::AlreadyExists { label: l1, path: p1 },
                FsError::AlreadyExists { label: l2, path: p2 },
            ) => *l1 == *l2 && *p1 == *p2,
            (FsError::InvalidName { reason: r1 }, FsError::InvalidName { reason: r2 }) => *r1
                == *r2,
            (FsError::ParentNotFound { path: p1 }, FsError::ParentNotFound { path: p2 }) => *p1
                == *p2,
            (FsError::TypeMismatch { message: m1 }, FsError::TypeMismatch { message: m2 }) => *m1
                == *m2,
            (
                FsError::DirectoryNotEmpty { path: p1 },
                FsError::DirectoryNotEmpty { path: p2 },
            ) => *p1 == *p2,
            (
                FsError::CrossesFilesystem { src: s1, dest: d1 },
                FsError::CrossesFilesystem { src: s2, dest: d2 },
            ) => *s1 == *s2 && *d1 == *d2,
            (
                FsError::InvalidGlob { pattern: p1, reason: r1 },
                FsError::InvalidGlob { pattern: p2, reason: r2 },
            ) => *p1 == *p2 && *r1 == *r2,
            (FsError::Io(e1), FsError::Io(e2)) => e1.kind == e2.kind,
            _ => false,
        }
    }
}

impl vstd::std_specs::cmp::PartialEqSpecImpl for FsError {
    open spec fn obeys_eq_spec() -> bool {
        true
    }

    open spec fn eq_spec(&self, other: &FsError) -> bool {
        same_error(*self, *other)
    }
}

/// The text of an error, as it is shown to the user.
pub open spec fn error_text(e: FsError) -> Seq<char> {
    match e {
        FsError::NotFound { label, path } => label@ + " not found: "@ + path@,
        FsError::AlreadyExists { label, path } => label@ + " already exists: "@ + path@,
        FsError::InvalidName { reason } => "Invalid entry name: "@ + reason@,
        FsError::ParentNotFound { path } => "Parent directory does not exist: "@ + path@,
        FsError::TypeMismatch { message } => "Type mismatch: "@ + message@,
        FsError::DirectoryNotEmpty { path } => "Directory not empty: "@ + path@,
        FsError::CrossesFilesystem { src, dest } => "Cannot rename across filesystems: "@ + src@
            + " → "@ + dest@,
        FsError::InvalidGlob { pattern, reason } => "Invalid glob pattern: "@ + pattern@ + " — "@
            + reason@,
        FsError::Io(e) => e.message@,
    }
}

impl FsError {
    /// The text of the error, as it is shown to the user.
    pub fn message(&self) -> (s: String)
        ensures
            s@ == error_text(*self),
    {
        let mut s = String::new();
        match self {
            FsError::NotFound { label, path } => {
                push_str(&mut s, label.as_str());
                push_str(&mut s, " not found: ");
                push_str(&mut s, path.as_str());
            },
            FsError::AlreadyExists { label, path } => {
                push_str(&mut s, label.as_str());
                push_str(&mut s, " already exists: ");
                push_str(&mut s, path.as_str());
            },
            FsError::InvalidName { reason } => {
                push_str(&mut s, "Invalid entry name: ");
                push_str(&mut s, reason.as_str());
            },
            FsError::ParentNotFound { path } => {
                push_str(&mut s, "Parent directory does not exist: ");
                push_str(&mut s, path.as_str());
            },
            FsError::TypeMismatch { message } => {
                push_str(&mut s, "Type mismatch: ");
                push_str(&mut s, message.as_str());
            },
            FsError::DirectoryNotEmpty { path } => {
                push_str(&mut s, "Directory not empty: ");
                push_str(&mut s, path.as_str());
            },
            FsError::CrossesFilesystem { src, dest } => {
                push_str(&mut s, "Cannot rename across filesystems: ");
                push_str(&mut s, src.as_str());
                push_str(&mut s, " → ");
                push_str(&mut s, dest.as_str());
            },
            FsError::InvalidGlob { pattern, reason } => {
                push_str(&mut s, "Invalid glob pattern: ");
                push_str(&mut s, pattern.as_str());
                push_str(&mut s, " — ");
                push_str(&mut s, reason.as_str());
            },
            FsError::Io(e) => {
                push_str(&mut s, e.message.as_str());
            },
        }
        assert(s@ =~= error_text(*self));
        s
    }
}

} // verus!
