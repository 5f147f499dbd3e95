//! Plain-text tables: a header line, a line of dashes, and one line per entry,
//! columns as wide as their widest cell and separated by two spaces.
use vstd::prelude::*;

use crate::text::{byte_count, byte_len, chars_of, owned, push_repeat, push_str};

verus! {

/// How a column's cells are padded to its width.
#[derive(Clone, Copy, Debug, PartialEq, Eq, Structural)]
pub enum Alignment {
    Left,
    Right,
}

/// Entries that can be shown as rows of a table.
pub trait TableRender: Sized {
    /// The column titles.
    spec fn header_texts() -> Seq<Seq<char>>;

    /// The alignment of each column; columns past its end are left-aligned.
    spec fn alignment_list() -> Seq<Alignment>;

    /// The cells of the row of `self`.
    spec fn row_texts(&self) -> Seq<Seq<char>>;

    fn headers() -> (h: Vec<&'static str>)
        ensures
            views_of_strs(h@) == Self::header_texts(),
    ;

    fn alignments() -> (a: Vec<Alignment>)
        ensures
            a@ == Self::alignment_list(),
    ;

    fn row(&self) -> (r: Vec<String>)
        ensures
            views_of(r@) == self.row_texts(),
    ;
}

/// The views of a sequence of strings.
pub open spec fn views_of(s: Seq<String>) -> Seq<Seq<char>> {
    s.map_values(|x: String| x@)
}

/// The views of a sequence of string slices.
pub open spec fn views_of_strs(s: Seq<&str>) -> Seq<Seq<char>> {
    s.map_values(|x: &str| x@)
}

/// `n` copies of `c`.
pub open spec fn repeat(c: char, n: nat) -> Seq<char> {
    Seq::new(n, |_i: int| c)
}

/// `parts` joined with `sep` between them.
pub open spec fn join(parts: Seq<Seq<char>>, sep: Seq<char>) -> Seq<char>
    decreases parts.len(),
{
    if parts.len() == 0 {
        Seq::empty()
    } else if parts.len() == 1 {
        parts[0]
    } else {
        join(parts.drop_last(), sep) + sep + parts.last()
    }
}

/// The larger of two numbers.
pub open spec fn max_nat(a: nat, b: nat) -> nat {
    if a >= b {
        a
    } else {
        b
    }
}

/// Column widths after taking `row` into account: a column is widened to the
/// byte length of the row's cell; cells past the last column are ignored.
pub open spec fn widen(w: Seq<nat>, row: Seq<Seq<char>>) -> Seq<nat> {
    Seq::new(
        w.len(),
        |i: int|
            if i < row.len() {
                max_nat(w[i], byte_len(row[i]))
            } else {
                w[i]
            },
    )
}

/// Column widths: the byte length of each title, widened by every row.
pub open spec fn column_widths(headers: Seq<Seq<char>>, rows: Seq<Seq<Seq<char>>>) -> Seq<nat>
    decreases rows.len(),
{
    if rows.len() == 0 {
        headers.map_values(|h: Seq<char>| byte_len(h))
    } else {
        widen(column_widths(headers, rows.drop_last()), rows.last())
    }
}

/// `cell` padded with spaces to `width` characters, on the right for a
/// left-aligned column and on the left for a right-aligned one.
pub open spec fn pad(cell: Seq<char>, width: nat, align: Alignment) -> Seq<char> {
    if cell.len() >= width {
        cell
    } else {
        match align {
            Alignment::Left => cell + repeat(' ', (width - cell.len()) as nat),
            Alignment::Right => repeat(' ', (width - cell.len()) as nat) + cell,
        }
    }
}

/// Width of column `i` (0 past the last column).
pub open spec fn width_at(w: Seq<nat>, i: int) -> nat {
    if 0 <= i < w.len() {
        w[i]
    } else {
        0
    }
}

/// Alignment of column `i` (left past the end of `a`).
pub open spec fn align_at(a: Seq<Alignment>, i: int) -> Alignment {
    if 0 <= i < a.len() {
        a[i]
    } else {
        Alignment::Left
    }
}

/// One line of the table: each cell padded to its column, joined by two spaces.
pub open spec fn table_line(cells: Seq<Seq<char>>, w: Seq<nat>, a: Seq<Alignment>) -> Seq<char> {
    join(
        Seq::new(cells.len(), |i: int| pad(cells[i], width_at(w, i), align_at(a, i))),
        seq![' ', ' '],
    )
}

/// The line under the titles: dashes as wide as each column.
pub open spec fn dash_line(w: Seq<nat>) -> Seq<char> {
    join(Seq::new(w.len(), |i: int| repeat('-', w[i])), seq![' ', ' '])
}

/// The text of a table.
#[derive(Debug)]
pub struct RenderedTable {
    pub header: String,
    pub separator: String,
    pub rows: Vec<String>,
}

/// Whether `t` is the table of `rows` under `headers`.
pub open spec fn is_table_of(
    t: RenderedTable,
    headers: Seq<Seq<char>>,
    aligns: Seq<Alignment>,
    rows: Seq<Seq<Seq<char>>>,
) -> bool {
    let w = column_widths(headers, rows);
    &&& t.header@ == table_line(headers, w, aligns)
    &&& t.separator@ == dash_line(w)
    &&& t.rows@.len() == rows.len()
    &&& forall|i: int| 0 <= i < rows.len() ==> (#[trigger] t.rows@[i])@ == table_line(rows[i], w, aligns)
}

fn widths_of_headers(headers: &Vec<String>) -> (w: Vec<usize>)
    ensures
        w@.len() == headers@.len(),
        forall|i: int| 0 <= i < w@.len() ==> w@[i] == byte_len(#[trigger] headers@[i]@),
{
    let mut w: Vec<usize> = Vec::new();
    let mut i: usize = 0;
    while i < headers.len()
        invariant
            i <= headers@.len(),
            w@.len() == i,
            forall|j: int| 0 <= j < i ==> w@[j] == byte_len(#[trigger] headers@[j]@),
        decreases headers.len() - i,
    {
        w.push(byte_count(headers[i].as_str()));
        i += 1;
    }
    w
}

fn widen_exec(w: &mut Vec<usize>, row: &Vec<String>)
    ensures
        final(w)@.len() == old(w)@.len(),
        forall|i: int|
            0 <= i < final(w)@.len() ==> #[trigger] final(w)@[i] as nat == widen(
                old(w)@.map_values(|x: usize| x as nat),
                views_of(row@),
            )[i],
{
    let mut i: usize = 0;
    while i < w.len()
        invariant
            i <= w@.len(),
            w@.len() == old(w)@.len(),
            forall|j: int|
                0 <= j < i ==> #[trigger] w@[j] as nat == widen(
                    old(w)@.map_values(|x: usize| x as nat),
                    views_of(row@),
                )[j],
            forall|j: int| i <= j < w@.len() ==> #[trigger] w@[j] == old(w)@[j],
        decreases w.len() - i,
    {
        if i < row.len() {
            let b = byte_count(row[i].as_str());
            if b > w[i] {
                w.set(i, b);
            }
        }
        i += 1;
    }
}

fn push_padded(line: &mut String, cell: &String, width: usize, align: Alignment)
    ensures
        final(line)@ == old(line)@ + pad(cell@, width as nat, align),
{
    let chars = chars_of(cell.as_str());
    let n = chars.len();
    if n >= width {
        push_str(line, cell.as_str());
    } else {
        match align {
            Alignment::Left => {
                push_str(line, cell.as_str());
                push_repeat(line, ' ', width - n);
            },
            Alignment::Right => {
                push_repeat(line, ' ', width - n);
                push_str(line, cell.as_str());
            },
        }
        assert(Seq::new((width - n) as nat, |_i: int| ' ') =~= repeat(' ', (width - n) as nat));
    }
}

proof fn lemma_join_push(parts: Seq<Seq<char>>, sep: Seq<char>, x: Seq<char>)
    ensures
        join(parts.push(x), sep) == if parts.len() == 0 {
            x
        } else {
            join(parts, sep) + sep + x
        },
{
    assert(parts.push(x).drop_last() =~= parts);
    if parts.len() == 0 {
        assert(parts.push(x)[0] == x);
    }
}

fn render_line(cells: &Vec<String>, w: &Vec<usize>, aligns: &Vec<Alignment>) -> (line: String)
    ensures
        line@ == table_line(views_of(cells@), w@.map_values(|x: usize| x as nat), aligns@),
{
    let ghost wn = w@.map_values(|x: usize| x as nat);
    let ghost cv = views_of(cells@);
    let ghost padded = Seq::new(
        cv.len(),
        |i: int| pad(cv[i], width_at(wn, i), align_at(aligns@, i)),
    );
    let mut line = String::new();
    let mut i: usize = 0;
    while i < cells.len()
        invariant
            i <= cells@.len(),
            cv == views_of(cells@),
            wn == w@.map_values(|x: usize| x as nat),
            padded == Seq::new(
                cv.len(),
                |i: int| pad(cv[i], width_at(wn, i), align_at(aligns@, i)),
            ),
            line@ == join(padded.take(i as int), seq![' ', ' ']),
        decreases cells.len() - i,
    {
        let ghost before = line@;
        if i > 0 {
            push_char_pair(&mut line);
        }
        let width = if i < w.len() {
            w[i]
        } else {
            0
        };
        let align = if i < aligns.len() {
            aligns[i]
        } else {
            Alignment::Left
        };
        push_padded(&mut line, &cells[i], width, align);
        proof {
            assert(padded.take(i + 1) =~= padded.take(i as int).push(padded[i as int]));
            lemma_join_push(padded.take(i as int), seq![' ', ' '], padded[i as int]);
            assert(cv[i as int] == cells@[i as int]@);
            if i == 0 {
                assert(line@ =~= padded[0]);
            } else {
                assert(line@ =~= before + seq![' ', ' '] + padded[i as int]);
            }
        }
        i += 1;
    }
    assert(padded.take(cells@.len() as int) =~= padded);
    line
}

fn push_char_pair(line: &mut String)
    ensures
        final(line)@ == old(line)@ + seq![' ', ' '],
{
    push_repeat(line, ' ', 2);
    assert(Seq::new(2, |_i: int| ' ') =~= seq![' ', ' ']);
}

fn render_dashes(w: &Vec<usize>) -> (line: String)
    ensures
        line@ == dash_line(w@.map_values(|x: usize| x as nat)),
{
    let ghost wn = w@.map_values(|x: usize| x as nat);
    let ghost parts = Seq::new(wn.len(), |i: int| repeat('-', wn[i]));
    let mut line = String::new();
    let mut i: usize = 0;
    while i < w.len()
        invariant
            i <= w@.len(),
            wn == w@.map_values(|x: usize| x as nat),
            parts == Seq::new(wn.len(), |i: int| repeat('-', wn[i])),
            line@ == join(parts.take(i as int), seq![' ', ' ']),
        decreases w.len() - i,
    {
        let ghost before = line@;
        if i > 0 {
            push_char_pair(&mut line);
        }
        push_repeat(&mut line, '-', w[i]);
        proof {
            assert(Seq::new(w@[i as int] as nat, |_i: int| '-') =~= parts[i as int]);
            assert(parts.take(i + 1) =~= parts.take(i as int).push(parts[i as int]));
            lemma_join_push(parts.take(i as int), seq![' ', ' '], parts[i as int]);
            if i == 0 {
                assert(line@ =~= parts[0]);
            } else {
                assert(line@ =~= before + seq![' ', ' '] + parts[i as int]);
            }
        }
        i += 1;
    }
    assert(parts.take(w@.len() as int) =~= parts);
    line
}

/// Lays out `rows` under `headers`; `None` where there are no columns.
pub fn render_rows(headers: &Vec<String>, aligns: &Vec<Alignment>, rows: &Vec<Vec<String>>) -> (r:
    Option<RenderedTable>)
    ensures
        r is None <==> headers@.len() == 0,
        r matches Some(t) ==> is_table_of(
            t,
            views_of(headers@),
            aligns@,
            rows@.map_values(|row: Vec<String>| views_of(row@)),
        ),
{
    if headers.len() == 0 {
        return None;
    }
    let ghost hv = views_of(headers@);
    let ghost rv = rows@.map_values(|row: Vec<String>| views_of(row@));
    let mut w = widths_of_headers(headers);
    assert(w@.map_values(|x: usize| x as nat) =~= column_widths(hv, rv.take(0)));
    let mut k: usize = 0;
    while k < rows.len()
        invariant
            k <= rows@.len(),
            hv == views_of(headers@),
            rv == rows@.map_values(|row: Vec<String>| views_of(row@)),
            w@.map_values(|x: usize| x as nat) == column_widths(hv, rv.take(k as int)),
        decreases rows.len() - k,
    {
        let ghost before = w@.map_values(|x: usize| x as nat);
        widen_exec(&mut w, &rows[k]);
        proof {
            assert(rv.take(k + 1).drop_last() =~= rv.take(k as int));
            assert(rv.take(k + 1).last() == views_of(rows@[k as int]@));
            assert(w@.map_values(|x: usize| x as nat) =~= widen(before, views_of(rows@[k as int]@)));
        }
        k += 1;
    }
    assert(rv.take(rows@.len() as int) =~= rv);
    let header = render_line(headers, &w, aligns);
    let separator = render_dashes(&w);
    let mut lines: Vec<String> = Vec::new();
    let mut i: usize = 0;
    while i < rows.len()
        invariant
            i <= rows@.len(),
            rv == rows@.map_values(|row: Vec<String>| views_of(row@)),
            lines@.len() == i,
            forall|j: int|
                0 <= j < i ==> (#[trigger] lines@[j])@ == table_line(
                    rv[j],
                    w@.map_values(|x: usize| x as nat),
                    aligns@,
                ),
        decreases rows.len() - i,
    {
        let line = render_line(&rows[i], &w, aligns);
        lines.push(line);
        i += 1;
    }
    Some(RenderedTable { header, separator, rows: lines })
}

/// Converts static titles to owned strings.
fn owned_all(h: &Vec<&'static str>) -> (r: Vec<String>)
    ensures
        views_of(r@) == views_of_strs(h@),
{
    let mut r: Vec<String> = Vec::new();
    let mut i: usize = 0;
    while i < h.len()
        invariant
            i <= h@.len(),
            r@.len() == i,
            forall|j: int| 0 <= j < i ==> (#[trigger] r@[j])@ == h@[j]@,
        decreases h.len() - i,
    {
        r.push(owned(h[i]));
        i += 1;
    }
    assert(views_of(r@) =~= views_of_strs(h@));
    r
}

/// The rows of `entries`, one per entry.
pub open spec fn rows_of<T: TableRender>(entries: Seq<T>) -> Seq<Seq<Seq<char>>> {
    entries.map_values(|e: T| e.row_texts())
}

/// Lays out `entries` as a table of their type's columns; `None` where the
/// type has no columns. What is printed is the header, the separator and,
/// where there are entries, their rows.
pub fn render_table<T: TableRender>(entries: &Vec<T>) -> (r: Option<RenderedTable>)
    ensures
        r is None <==> T::header_texts().len() == 0,
        r matches Some(t) ==> is_table_of(t, T::header_texts(), T::alignment_list(), rows_of(entries@)),
{
    let headers = owned_all(&T::headers());
    let aligns = T::alignments();
    let mut rows: Vec<Vec<String>> = Vec::new();
    let mut i: usize = 0;
    while i < entries.len()
        invariant
            i <= entries@.len(),
            rows@.len() == i,
            forall|j: int| 0 <= j < i ==> views_of((#[trigger] rows@[j])@) == entries@[j].row_texts(),
        decreases entries.len() - i,
    {
        rows.push(entries[i].row());
        i += 1;
    }
    assert(rows@.map_values(|row: Vec<String>| views_of(row@)) =~= rows_of(entries@));
    render_rows(&headers, &aligns, &rows)
}

} // verus!
