//! Listing a directory and finding entries by a glob pattern.
use vstd::prelude::*;

use crate::fs::errors::FsError;
use crate::fs::names::{is_hidden, is_hidden_filename};
use crate::fs::types::FileEntry;
use crate::text::owned;

verus! {

/// The name of a directory entry: `None` stands for a name that is not valid
/// UTF-8, which is refused.
pub fn extract_dir_entry_name(name: Option<String>) -> (r: Result<String, FsError>)
    ensures
        match name {
            Some(n) => r == Ok::<String, FsError>(n),
            None => r matches Err(FsError::InvalidName { reason }) && reason@
                == "Filename contains invalid UTF-8"@,
        },
{
    match name {
        Some(n) => Ok(n),
        None => Err(FsError::InvalidName { reason: owned("Filename contains invalid UTF-8") }),
    }
}

/// Whether a listing shows the entry `name`: hidden entries only where asked for.
pub fn shows_entry(name: &str, include_hidden: bool) -> (b: bool)
    ensures
        b == (include_hidden || !is_hidden(name@)),
{
    include_hidden || !is_hidden_filename(name)
}

#[verifier::external_type_specification]
#[verifier::external_body]
pub struct ExGlobSet(globset::GlobSet);

/// A compiled glob and the pattern it was compiled from.
pub struct GlobFilter {
    pattern: String,
    set: globset::GlobSet,
}

/// What globset gives for `pattern` compiled as a case-insensitive glob and
/// then as a set of that one glob: `Ok` where both succeed, else the text of
/// the error (a parse error, or a pattern whose matcher grows past globset's
/// size limit).
pub uninterp spec fn glob_build(pattern: Seq<char>) -> Result<(), Seq<char>>;

/// Whether `name`, whose ASCII letters are lower case, matches the glob
/// `pattern` compiled without regard to case.
pub uninterp spec fn glob_match(pattern: Seq<char>, name: Seq<char>) -> bool;

/// `s` with its ASCII capital letters made small.
pub open spec fn ascii_lower(s: Seq<char>) -> Seq<char> {
    s.map_values(
        |c: char|
            if 'A' <= c && c <= 'Z' {
                ((c as u32) + 32) as char
            } else {
                c
            },
    )
}

/// Whether the entry `name` is found by `pattern`: the search ignores the
/// case of ASCII letters.
pub open spec fn found_by(pattern: Seq<char>, name: Seq<char>) -> bool {
    glob_match(pattern, ascii_lower(name))
}

/// Compiles `pattern` with globset: `GlobBuilder::new(pattern)`,
/// `case_insensitive(true)`, `build`, then a `GlobSetBuilder` holding that glob,
/// whose `build` reports a matcher too large as an error; either error gives its
/// text. Named by [`glob_build`].
#[verifier::external_body]
fn compile_glob(pattern: &str) -> (r: Result<GlobFilter, String>)
    ensures
        match r {
            Ok(f) => glob_build(pattern@) == Ok::<(), Seq<char>>(()) && f.pattern@ == pattern@,
            Err(reason) => glob_build(pattern@) == Err::<(), Seq<char>>(reason@),
        },
{
    match globset::GlobBuilder::new(pattern).case_insensitive(true).build() {
        Ok(glob) => match globset::GlobSetBuilder::new().add(glob).build() {
            Ok(set) => Ok(GlobFilter { pattern: pattern.to_string(), set }),
            Err(e) => Err(e.to_string()),
        },
        Err(e) => Err(e.to_string()),
    }
}

/// `GlobSet::is_match` of globset on `name`, with the set that
/// [`compile_glob`] built from the filter's pattern. The glob compiles to a
/// byte regex marked `(?-u)(?i)`, which matches a name exactly where it
/// matches the name with its ASCII letters made small; named by [`glob_match`]
/// on that form.
#[verifier::external_body]
fn glob_accepts(filter: &GlobFilter, name: &str) -> (r: bool)
    ensures
        r == glob_match(filter.pattern@, ascii_lower(name@)),
{
    filter.set.is_match(name)
}

/// Names that differ only in the case of ASCII letters are found alike.
pub proof fn lemma_search_ignores_ascii_case(pattern: Seq<char>, a: Seq<char>, b: Seq<char>)
    requires
        ascii_lower(a) == ascii_lower(b),
    ensures
        found_by(pattern, a) == found_by(pattern, b),
{
}

/// The entries whose names match `pattern`, in their order.
pub open spec fn matching_entries(entries: Seq<FileEntry>, pattern: Seq<char>) -> Seq<FileEntry>
    decreases entries.len(),
{
    if entries.len() == 0 {
        Seq::empty()
    } else {
        let rest = matching_entries(entries.drop_last(), pattern);
        if found_by(pattern, entries.last().name@) {
            rest.push(entries.last())
        } else {
            rest
        }
    }
}

/// The search keeps, in their order, exactly the entries whose names the glob
/// matches once their ASCII letters are made small; nothing else about a name,
/// such as a leading dot, plays a part.
pub proof fn lemma_search_keeps_exactly_the_matches(entries: Seq<FileEntry>, pattern: Seq<char>)
    ensures
        matching_entries(entries, pattern) == entries.filter(
            |e: FileEntry| glob_match(pattern, ascii_lower(e.name@)),
        ),
    decreases entries.len(),
{
    reveal_with_fuel(Seq::filter, 1);
    if entries.len() > 0 {
        lemma_search_keeps_exactly_the_matches(entries.drop_last(), pattern);
    }
}

/// An entry that the glob matches is found, hidden or not: searching a
/// listing of that one entry gives it back.
pub proof fn lemma_search_finds_a_matching_entry(e: FileEntry, pattern: Seq<char>)
    requires
        glob_match(pattern, ascii_lower(e.name@)),
    ensures
        matching_entries(seq![e], pattern) == seq![e],
{
    let one = seq![e];
    assert(one.drop_last() =~= Seq::<FileEntry>::empty());
    assert(one.last() == e);
    assert(matching_entries(Seq::<FileEntry>::empty(), pattern) =~= Seq::<FileEntry>::empty());
    assert(found_by(pattern, e.name@));
    assert(Seq::<FileEntry>::empty().push(e) =~= one);
}

/// Keeps the entries whose names match the glob `pattern` (without regard to
/// the case of ASCII letters); an invalid pattern is `InvalidGlob` with globset's reason.
pub fn find_current_dir(entries: Vec<FileEntry>, pattern: &str) -> (r: Result<Vec<FileEntry>, FsError>)
    ensures
        match glob_build(pattern@) {
            Ok(_) => r matches Ok(found) && found@ == matching_entries(entries@, pattern@),
            Err(why) => r matches Err(FsError::InvalidGlob { pattern: p, reason }) && p@
                == pattern@ && reason@ == why,
        },
{
    let filter = match compile_glob(pattern) {
        Ok(f) => f,
        Err(reason) => {
            return Err(FsError::InvalidGlob { pattern: owned(pattern), reason });
        },
    };
    let ghost input = entries@;
    let mut rest = entries;
    let mut reversed: Vec<FileEntry> = Vec::new();
    // Take the entries from the back, keeping those that match.
    while rest.len() > 0
        invariant
            rest@ == input.take(rest@.len() as int),
            rest@.len() <= input.len(),
            matching_entries(input, pattern@) == matching_entries(rest@, pattern@)
                + reversed@.reverse(),
            filter.pattern@ == pattern@,
        decreases rest@.len(),
    {
        let ghost before = rest@;
        let ghost kept = reversed@;
        let e = rest.pop().unwrap();
        assert(before.drop_last() =~= rest@);
        if glob_accepts(&filter, e.name.as_str()) {
            reversed.push(e);
            assert(reversed@.reverse() =~= seq![before.last()] + kept.reverse());
            assert(matching_entries(rest@, pattern@).push(before.last()) + kept.reverse()
                =~= matching_entries(rest@, pattern@) + reversed@.reverse());
        }
        assert(rest@ =~= input.take(rest@.len() as int));
    }
    let mut found: Vec<FileEntry> = Vec::new();
    let ghost all = reversed@;
    while reversed.len() > 0
        invariant
            reversed@ == all.take(reversed@.len() as int),
            found@ == all.reverse().take(all.len() - reversed@.len()),
            reversed@.len() <= all.len(),
        decreases reversed@.len(),
    {
        let ghost m = reversed@.len();
        let e = reversed.pop().unwrap();
        found.push(e);
        assert(reversed@ =~= all.take(m - 1));
        assert(found@ =~= all.reverse().take(all.len() - (m - 1)));
    }
    assert(found@ =~= all.reverse());
    assert(matching_entries(rest@, pattern@) =~= Seq::<FileEntry>::empty());
    assert(matching_entries(input, pattern@) =~= all.reverse());
    Ok(found)
}

} // verus!
