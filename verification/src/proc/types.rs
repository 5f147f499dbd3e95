//! A process as listed: id, name, state letter and resident memory.
use vstd::prelude::*;

use crate::query::{is_sorted_listing, is_stable_arrangement, key_le, text_le, KeyView, SortKey, SortOrder, Sortable};
use crate::size_format::{format_human_readable_size, human_size};
use crate::table::{Alignment, TableRender};
use crate::text::{chars_of, decimal, decimal_string, push_char};

verus! {

/// One process.
#[derive(Clone, Debug)]
pub struct ProcessInfo {
    pub pid: u32,
    pub name: String,
    pub state: char,
    /// Resident memory in bytes.
    pub rss: u64,
}

/// The fields by which processes can be sorted: the name, or the resident memory.
#[derive(Clone, Copy, Debug, PartialEq, Eq, Structural)]
pub enum ProcSortField {
    Name,
    Size,
}

impl Default for ProcSortField {
    fn default() -> (r: Self)
        ensures
            r == ProcSortField::Name,
    {
        ProcSortField::Name
    }
}

impl Sortable for ProcessInfo {
    type Field = ProcSortField;

    open spec fn key_view(&self, field: ProcSortField) -> KeyView {
        match field {
            ProcSortField::Name => KeyView::Text(self.name@),
            ProcSortField::Size => KeyView::Number(self.rss),
        }
    }

    fn sort_key(&self, field: &ProcSortField) -> (k: SortKey) {
        match field {
            ProcSortField::Name => SortKey::Text(chars_of(self.name.as_str())),
            ProcSortField::Size => SortKey::Number(self.rss),
        }
    }
}

impl TableRender for ProcessInfo {
    open spec fn header_texts() -> Seq<Seq<char>> {
        seq![seq!['P', 'I', 'D'], seq!['N', 'A', 'M', 'E'], seq!['S', 'T', 'A', 'T', 'E'], seq!['M', 'E', 'M', 'O', 'R', 'Y']]
    }

    open spec fn alignment_list() -> Seq<Alignment> {
        seq![Alignment::Left, Alignment::Left, Alignment::Left, Alignment::Right]
    }

    /// The id, the name, the state letter and the memory as a human-readable size.
    open spec fn row_texts(&self) -> Seq<Seq<char>> {
        seq![decimal(self.pid as nat), self.name@, seq![self.state], human_size(self.rss)]
    }

    fn headers() -> (h: Vec<&'static str>) {
        let h = vec!["PID", "NAME", "STATE", "MEMORY"];
        proof {
            reveal_strlit("PID");
            reveal_strlit("NAME");
            reveal_strlit("STATE");
            reveal_strlit("MEMORY");
            assert("PID"@ =~= seq!['P', 'I', 'D']);
            assert("NAME"@ =~= seq!['N', 'A', 'M', 'E']);
            assert("STATE"@ =~= seq!['S', 'T', 'A', 'T', 'E']);
            assert("MEMORY"@ =~= seq!['M', 'E', 'M', 'O', 'R', 'Y']);
            assert(crate::table::views_of_strs(h@) =~= Self::header_texts());
        }
        h
    }

    fn alignments() -> (a: Vec<Alignment>) {
        let a = vec![Alignment::Left, Alignment::Left, Alignment::Left, Alignment::Right];
        assert(a@ =~= Self::alignment_list());
        a
    }

    fn row(&self) -> (r: Vec<String>) {
        let mut state = String::new();
        push_char(&mut state, self.state);
        assert(state@ =~= seq![self.state]);
        let r = vec![
            decimal_string(self.pid as u64),
            self.name.clone(),
            state,
            format_human_readable_size(self.rss),
        ];
        assert(crate::table::views_of(r@) =~= self.row_texts());
        r
    }
}

/// Sorting processes by memory puts them in the order of their resident
/// memory as numbers: ascending, each is at most the next; descending, at least.
pub proof fn lemma_memory_sort_is_numeric(
    input: Seq<ProcessInfo>,
    output: Seq<ProcessInfo>,
    order: SortOrder,
    i: int,
    j: int,
)
    requires
        is_sorted_listing(input, output, ProcSortField::Size, order),
        0 <= i < j < output.len(),
    ensures
        order == SortOrder::Asc ==> output[i].rss <= output[j].rss,
        order == SortOrder::Desc ==> output[i].rss >= output[j].rss,
{
    let key = |e: ProcessInfo| e.key_view(ProcSortField::Size);
    match order {
        SortOrder::Asc => {
            let p = choose|p: Seq<int>| is_stable_arrangement(input, output, key, p);
            assert(key_le(key(output[i]), key(output[j])));
        },
        SortOrder::Desc => {
            let rev = output.reverse();
            let p = choose|p: Seq<int>| is_stable_arrangement(input, rev, key, p);
            let n = output.len() as int;
            assert(rev[n - 1 - j] == output[j] && rev[n - 1 - i] == output[i]);
            assert(key_le(key(rev[n - 1 - j]), key(rev[n - 1 - i])));
        },
    }
}

/// Sorting processes by name puts them in the order of their names compared
/// character by character.
pub proof fn lemma_process_name_sort_is_textual(
    input: Seq<ProcessInfo>,
    output: Seq<ProcessInfo>,
    order: SortOrder,
    i: int,
    j: int,
)
    requires
        is_sorted_listing(input, output, ProcSortField::Name, order),
        0 <= i < j < output.len(),
    ensures
        order == SortOrder::Asc ==> text_le(output[i].name@, output[j].name@),
        order == SortOrder::Desc ==> text_le(output[j].name@, output[i].name@),
{
    let key = |e: ProcessInfo| e.key_view(ProcSortField::Name);
    match order {
        SortOrder::Asc => {
            let p = choose|p: Seq<int>| is_stable_arrangement(input, output, key, p);
            assert(key_le(key(output[i]), key(output[j])));
        },
        SortOrder::Desc => {
            let rev = output.reverse();
            let p = choose|p: Seq<int>| is_stable_arrangement(input, rev, key, p);
            let n = output.len() as int;
            assert(rev[n - 1 - j] == output[j] && rev[n - 1 - i] == output[i]);
            assert(key_le(key(rev[n - 1 - j]), key(rev[n - 1 - i])));
        },
    }
}

} // verus!
