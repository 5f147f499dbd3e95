//! Entries of a directory listing.
use vstd::prelude::*;

use crate::query::{is_sorted_listing, key_le, text_le, KeyView, SortKey, SortOrder, Sortable};
use crate::scan::{lemma_decimal_reads_back, parse_u64};
use crate::table::{Alignment, TableRender};
use crate::text::{chars_of, decimal, owned, push_char, push_decimal};

verus! {

/// A file or directory as listed: its name, its size in bytes and whether it
/// is a directory.
#[derive(Clone, Debug)]
pub struct FileEntry {
    pub name: String,
    pub size: u64,
    pub is_dir: bool,
}

/// What the listing reads from an entry's metadata.
#[derive(Clone, Copy, Debug, PartialEq, Eq, Structural)]
pub struct EntryMeta {
    /// Length in bytes.
    pub len: u64,
    pub is_dir: bool,
}

/// The fields by which entries can be sorted.
#[derive(Clone, Copy, Debug, PartialEq, Eq, Structural)]
pub enum FsSortField {
    Name,
    Size,
}

impl Default for FsSortField {
    fn default() -> (r: Self)
        ensures
            r == FsSortField::Name,
    {
        FsSortField::Name
    }
}

/// The entry named `name` with the size and type of `meta`.
pub fn build_file_entry(name: String, meta: EntryMeta) -> (e: FileEntry)
    ensures
        e.name == name,
        e.size == meta.len,
        e.is_dir == meta.is_dir,
{
    FileEntry { name, size: meta.len, is_dir: meta.is_dir }
}

impl Sortable for FileEntry {
    type Field = FsSortField;

    open spec fn key_view(&self, field: FsSortField) -> KeyView {
        match field {
            FsSortField::Name => KeyView::Text(self.name@),
            FsSortField::Size => KeyView::Number(self.size),
        }
    }

    fn sort_key(&self, field: &FsSortField) -> (k: SortKey) {
        match field {
            FsSortField::Name => SortKey::Text(chars_of(self.name.as_str())),
            FsSortField::Size => SortKey::Number(self.size),
        }
    }
}

impl TableRender for FileEntry {
    open spec fn header_texts() -> Seq<Seq<char>> {
        seq![seq!['N', 'A', 'M', 'E'], seq!['S', 'I', 'Z', 'E'], seq!['T', 'Y', 'P', 'E']]
    }

    /// No alignment is given: every column is left-aligned.
    open spec fn alignment_list() -> Seq<Alignment> {
        Seq::empty()
    }

    /// The name; `-` for a directory, else the size followed by `B`; `DIR` or `FILE`.
    open spec fn row_texts(&self) -> Seq<Seq<char>> {
        seq![
            self.name@,
            if self.is_dir {
                seq!['-']
            } else {
                decimal(self.size as nat) + seq!['B']
            },
            if self.is_dir {
                seq!['D', 'I', 'R']
            } else {
                seq!['F', 'I', 'L', 'E']
            },
        ]
    }

    fn headers() -> (h: Vec<&'static str>) {
        let h = vec!["NAME", "SIZE", "TYPE"];
        proof {
            reveal_strlit("NAME");
            reveal_strlit("SIZE");
            reveal_strlit("TYPE");
            assert("NAME"@ =~= seq!['N', 'A', 'M', 'E']);
            assert("SIZE"@ =~= seq!['S', 'I', 'Z', 'E']);
            assert("TYPE"@ =~= seq!['T', 'Y', 'P', 'E']);
            assert(crate::table::views_of_strs(h@) =~= Self::header_texts());
        }
        h
    }

    fn alignments() -> (a: Vec<Alignment>) {
        let a: Vec<Alignment> = Vec::new();
        assert(a@ =~= Self::alignment_list());
        a
    }

    fn row(&self) -> (r: Vec<String>) {
        let mut size = String::new();
        if self.is_dir {
            push_char(&mut size, '-');
            assert(size@ =~= seq!['-']);
        } else {
            push_decimal(&mut size, self.size);
            push_char(&mut size, 'B');
            assert(size@ =~= decimal(self.size as nat) + seq!['B']);
        }
        let kind = if self.is_dir {
            owned("DIR")
        } else {
            owned("FILE")
        };
        proof {
            reveal_strlit("DIR");
            reveal_strlit("FILE");
            assert("DIR"@ =~= seq!['D', 'I', 'R']);
            assert("FILE"@ =~= seq!['F', 'I', 'L', 'E']);
            if self.is_dir {
                assert(kind@ =~= seq!['D', 'I', 'R']);
            } else {
                assert(kind@ =~= seq!['F', 'I', 'L', 'E']);
            }
        }
        let r = vec![self.name.clone(), size, kind];
        assert(crate::table::views_of(r@) =~= self.row_texts());
        r
    }
}

/// The SIZE cell of a row is `-` exactly for a directory; for a file of any
/// size, empty ones included, it is a number followed by `B`, and that number
/// reads back as the size.
pub proof fn lemma_size_cell(e: FileEntry)
    ensures
        e.row_texts()[1] == seq!['-'] <==> e.is_dir,
        !e.is_dir ==> {
            let cell = e.row_texts()[1];
            &&& cell.len() >= 2
            &&& cell.last() == 'B'
            &&& parse_u64(cell.drop_last()) == Some(e.size)
        },
{
    if !e.is_dir {
        lemma_decimal_reads_back(e.size);
        let d = decimal(e.size as nat);
        let cell = e.row_texts()[1];
        assert(cell == d + seq!['B']);
        assert(cell.drop_last() =~= d);
        assert(d.len() > 0) by {
            crate::scan::lemma_decimal_digits(e.size as nat);
        }
        assert(cell.len() != 1);
    }
}

/// Sorting entries by size puts them in the order of their sizes as numbers:
/// ascending, each size is at most the next; descending, at least the next.
pub proof fn lemma_size_sort_is_numeric(
    input: Seq<FileEntry>,
    output: Seq<FileEntry>,
    order: SortOrder,
    i: int,
    j: int,
)
    requires
        is_sorted_listing(input, output, FsSortField::Size, order),
        0 <= i < j < output.len(),
    ensures
        order == SortOrder::Asc ==> output[i].size <= output[j].size,
        order == SortOrder::Desc ==> output[i].size >= output[j].size,
{
    let key = |e: FileEntry| e.key_view(FsSortField::Size);
    match order {
        SortOrder::Asc => {
            let p = choose|p: Seq<int>| crate::query::is_stable_arrangement(input, output, key, p);
            assert(key_le(key(output[i]), key(output[j])));
        },
        SortOrder::Desc => {
            let rev = output.reverse();
            let p = choose|p: Seq<int>| crate::query::is_stable_arrangement(input, rev, key, p);
            let n = output.len() as int;
            assert(rev[n - 1 - j] == output[j] && rev[n - 1 - i] == output[i]);
            assert(key_le(key(rev[n - 1 - j]), key(rev[n - 1 - i])));
        },
    }
}

/// Sorting entries by name puts them in the order of their names compared
/// character by character.
pub proof fn lemma_name_sort_is_textual(
    input: Seq<FileEntry>,
    output: Seq<FileEntry>,
    order: SortOrder,
    i: int,
    j: int,
)
    requires
        is_sorted_listing(input, output, FsSortField::Name, order),
        0 <= i < j < output.len(),
    ensures
        order == SortOrder::Asc ==> text_le(output[i].name@, output[j].name@),
        order == SortOrder::Desc ==> text_le(output[j].name@, output[i].name@),
{
    let key = |e: FileEntry| e.key_view(FsSortField::Name);
    match order {
        SortOrder::Asc => {
            let p = choose|p: Seq<int>| crate::query::is_stable_arrangement(input, output, key, p);
            assert(key_le(key(output[i]), key(output[j])));
        },
        SortOrder::Desc => {
            let rev = output.reverse();
            let p = choose|p: Seq<int>| crate::query::is_stable_arrangement(input, rev, key, p);
            let n = output.len() as int;
            assert(rev[n - 1 - j] == output[j] && rev[n - 1 - i] == output[i]);
            assert(key_le(key(rev[n - 1 - j]), key(rev[n - 1 - i])));
        },
    }
}

} // verus!
