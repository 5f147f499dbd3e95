//! Entry names and path components.
use vstd::prelude::*;

use crate::fs::errors::FsError;
use crate::text::{all_ws, byte_count, byte_len, chars_of, contains_char, has_char, only_whitespace, owned, push_str};

verus! {

// ---------------------------------------------------------------------------
// Paths, as std's `Path` reads them
/// The last component of `path` where it is a normal one (`Path::file_name`).
pub uninterp spec fn path_file_name(path: Seq<char>) -> Option<Seq<char>>;

/// `path` without its last component (`Path::parent`); `None` for a root or an
/// empty path.
pub uninterp spec fn path_parent(path: Seq<char>) -> Option<Seq<char>>;

/// Whether two paths have the same components (`Path == Path`).
pub uninterp spec fn same_path(a: Seq<char>, b: Seq<char>) -> bool;

/// `Path::file_name` of std on `path`, as a string: the final component
/// where it is a normal one, `None` where the path ends in `..`, is a root or
/// is empty. The result is named by [`path_file_name`]. A normal component
/// (`Component::Normal`) is what lies between separators once empty
/// components and `.` and `..` are set apart: it is not empty, holds no `/`,
/// and is neither `.` nor `..`.
#[verifier::external_body]
fn file_name_of(path: &str) -> (r: Option<String>)
    ensures
        match r {
            Some(name) => path_file_name(path@) == Some(name@),
            None => path_file_name(path@) is None,
        },
        r matches Some(name) ==> is_normal_component(name@),
{
    std::path::Path::new(path).file_name().and_then(|n| n.to_str()).map(|n| n.to_string())
}

/// `Path::parent` of std on `path`, as a string: the path without its final
/// component, `None` where it has none. The result is named by [`path_parent`].
#[verifier::external_body]
fn parent_of(path: &str) -> (r: Option<String>)
    ensures
        match r {
            Some(p) => path_parent(path@) == Some(p@),
            None => path_parent(path@) is None,
        },
{
    std::path::Path::new(path).parent().and_then(|p| p.to_str()).map(|p| p.to_string())
}

/// `==` of std on the two paths, which compares their components (so
/// `a/b` and `a//b` are the same path). Named by [`same_path`]; equal texts are
/// the same path.
#[verifier::external_body]
pub(crate) fn paths_equal(a: &str, b: &str) -> (r: bool)
    ensures
        r == same_path(a@, b@),
        a@ == b@ ==> r,
{
    std::path::Path::new(a) == std::path::Path::new(b)
}

/// A name that can be a normal path component: not empty, without `/`, and
/// neither `.` nor `..`.
pub open spec fn is_normal_component(name: Seq<char>) -> bool {
    &&& name.len() > 0
    &&& !has_char(name, '/')
    &&& name != seq!['.']
    &&& name != seq!['.', '.']
}

/// The error for a path that names no entry readable as text.
pub fn unnamed_path_error() -> (e: FsError)
    ensures
        e matches FsError::InvalidName { reason } && reason@
            == "Path contains invalid UTF-8 or has no filename component"@,
{
    FsError::InvalidName {
        reason: owned("Path contains invalid UTF-8 or has no filename component"),
    }
}

/// Whether the text of `path` ends with a directory separator.
pub open spec fn ends_with_separator(path: Seq<char>) -> bool {
    path.len() > 0 && (path.last() == '/' || path.last() == '\\')
}

/// The name of the entry at `path`, or why there is none: a path that ends
/// with a separator names no entry, nor does one without a final normal
/// component.
pub open spec fn filename_outcome(path: Seq<char>) -> Result<Seq<char>, Seq<char>> {
    if ends_with_separator(path) {
        Err("Path ends with a directory seperator"@)
    } else {
        match path_file_name(path) {
            Some(name) => Ok(name),
            None => Err("Path contains invalid UTF-8 or has no filename component"@),
        }
    }
}

/// Whether `path` names an entry whose name is valid.
pub open spec fn names_valid_entry(path: Seq<char>) -> bool {
    filename_outcome(path) matches Ok(name) && name_problem(name) is None
}

/// The name of the entry that `path` designates.
pub fn extract_filename(path: &str) -> (r: Result<String, FsError>)
    ensures
        match (r, filename_outcome(path@)) {
            (Ok(name), Ok(expected)) => name@ == expected,
            (Err(FsError::InvalidName { reason }), Err(expected)) => reason@ == expected,
            _ => false,
        },
        r matches Ok(name) ==> is_normal_component(name@),
{
    let s = chars_of(path);
    let n = s.len();
    if n > 0 && (s[n - 1] == '/' || s[n - 1] == '\\') {
        return Err(FsError::InvalidName { reason: owned("Path ends with a directory seperator") });
    }
    match file_name_of(path) {
        Some(name) => Ok(name),
        None => Err(unnamed_path_error()),
    }
}

/// The parent directory whose existence a new entry at `path` needs: the
/// parent, where there is one and it is not empty (a bare name lives in the
/// current directory, a root has no parent).
pub open spec fn parent_to_check_of(path: Seq<char>) -> Option<Seq<char>> {
    match path_parent(path) {
        Some(p) => if p.len() > 0 {
            Some(p)
        } else {
            None
        },
        None => None,
    }
}

/// The parent directory that must exist before an entry is created at `path`.
pub fn parent_to_check(path: &str) -> (r: Option<String>)
    ensures
        match r {
            Some(p) => parent_to_check_of(path@) == Some(p@),
            None => parent_to_check_of(path@) is None,
        },
{
    match parent_of(path) {
        Some(p) => {
            if p.as_str().is_empty() {
                None
            } else {
                Some(p)
            }
        },
        None => None,
    }
}

/// The error for a missing parent directory: `Ok` where it exists.
pub fn check_parent_exists(parent: &str, exists: bool) -> (r: Result<(), FsError>)
    ensures
        exists <==> r is Ok,
        r matches Err(e) ==> e matches FsError::ParentNotFound { path } && path@ == parent@,
{
    if exists {
        Ok(())
    } else {
        Err(FsError::ParentNotFound { path: owned(parent) })
    }
}

// ---------------------------------------------------------------------------
// Entry names
/// Why `name` cannot name an entry, or `None` where it can: it may not be
/// blank, `.` or `..`, hold a NUL or a separator, or exceed 255 bytes.
pub open spec fn name_problem(name: Seq<char>) -> Option<Seq<char>> {
    if all_ws(name) {
        Some("Entry name cannot be empty"@)
    } else if name == seq!['.'] || name == seq!['.', '.'] {
        Some("Entry name '"@ + name + "' is reserved"@)
    } else if has_char(name, '\0') || has_char(name, '/') || has_char(name, '\\') {
        Some("Entry name contains invalid characters (\\0, /, \\)"@)
    } else if byte_len(name) > 255 {
        Some("Entry name exceeds maximum length (255 bytes)"@)
    } else {
        None
    }
}

/// Decides [`name_problem`].
pub fn entry_name_problem(name: &str) -> (r: Option<String>)
    ensures
        match r {
            Some(reason) => name_problem(name@) == Some(reason@),
            None => name_problem(name@) is None,
        },
{
    let s = chars_of(name);
    if only_whitespace(&s) {
        return Some(owned("Entry name cannot be empty"));
    }
    if (s.len() == 1 && s[0] == '.') || (s.len() == 2 && s[0] == '.' && s[1] == '.') {
        let mut reason = owned("Entry name '");
        push_str(&mut reason, name);
        push_str(&mut reason, "' is reserved");
        assert(s@ =~= seq!['.'] || s@ =~= seq!['.', '.']);
        return Some(reason);
    }
    assert(!(s@ =~= seq!['.']) && !(s@ =~= seq!['.', '.']));
    if contains_char(&s, '\0') || contains_char(&s, '/') || contains_char(&s, '\\') {
        return Some(owned("Entry name contains invalid characters (\\0, /, \\)"));
    }
    if byte_count(name) > 255 {
        return Some(owned("Entry name exceeds maximum length (255 bytes)"));
    }
    None
}

/// Checks that `name` can name a new entry (see [`name_problem`]).
pub fn validate_entry_name(name: &str) -> (r: Result<(), FsError>)
    ensures
        r is Ok <==> name_problem(name@) is None,
        r matches Err(e) ==> e matches FsError::InvalidName { reason } && name_problem(name@)
            == Some(reason@),
{
    match entry_name_problem(name) {
        Some(reason) => Err(FsError::InvalidName { reason }),
        None => Ok(()),
    }
}

/// Whether a file name is hidden: it starts with a dot.
pub open spec fn is_hidden(name: Seq<char>) -> bool {
    name.len() > 0 && name[0] == '.'
}

/// Whether `name` names a hidden entry.
pub fn is_hidden_filename(name: &str) -> (b: bool)
    ensures
        b == is_hidden(name@),
{
    let s = chars_of(name);
    s.len() > 0 && s[0] == '.'
}

/// A name is hidden exactly when its first character is a dot: a dot put in
/// front of any name hides it, any other first character leaves it shown, and
/// the empty name is shown.
pub proof fn lemma_hidden_means_leading_dot(name: Seq<char>, c: char)
    ensures
        is_hidden(name) <==> (name.len() > 0 && name[0] == '.'),
        is_hidden(seq!['.'] + name),
        c != '.' ==> !is_hidden(seq![c] + name),
        !is_hidden(Seq::<char>::empty()),
{
    assert((seq!['.'] + name)[0] == '.');
    assert((seq![c] + name)[0] == c);
}

} // verus!
