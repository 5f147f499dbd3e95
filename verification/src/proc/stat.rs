//! Reading the process and system counters of the Linux `/proc` file system:
//! one line of `/proc/<pid>/stat` and the first line of `/proc/stat`.
use vstd::prelude::*;

use crate::scan::{field_spans, parse_u32, parse_u32_span, parse_u64, parse_u64_span, trim_start, ws_fields, span_text, Span};
use crate::text::{chars_of, is_whitespace, push_chars};

verus! {

/// The values read from one `/proc/<pid>/stat` line.
#[derive(Debug)]
pub struct RawSnapshot {
    pub pid: u32,
    pub name: String,
    pub state: char,
    /// Resident memory in bytes.
    pub rss: u64,
    /// User plus system time, in clock ticks.
    pub total_ticks: u64,
}

/// Position of the first `c` in `s` at or after `i` (`str::find`).
pub open spec fn find_from(s: Seq<char>, c: char, i: int) -> Option<int>
    decreases s.len() - i,
{
    if i < 0 || i >= s.len() {
        None
    } else if s[i] == c {
        Some(i)
    } else {
        find_from(s, c, i + 1)
    }
}

/// Position of the last `c` in `s[..i]` (`str::rfind`).
pub open spec fn rfind_before(s: Seq<char>, c: char, i: int) -> Option<int>
    decreases i,
{
    if i <= 0 || i > s.len() {
        None
    } else if s[i - 1] == c {
        Some(i - 1)
    } else {
        rfind_before(s, c, i - 1)
    }
}

/// Position of the first `(` of a stat line.
pub open spec fn stat_open(s: Seq<char>) -> Option<int> {
    find_from(s, '(', 0)
}

/// Position of the last `)` of a stat line.
pub open spec fn stat_close(s: Seq<char>) -> Option<int> {
    rfind_before(s, ')', s.len() as int)
}

/// What follows the last `)`, without leading whitespace.
pub open spec fn stat_rest(s: Seq<char>) -> Seq<char> {
    trim_start(s.skip(stat_close(s).unwrap() + 1))
}

/// The numeric field `k` after the name (the state is field 0), or 0 where it
/// is missing or no number.
pub open spec fn stat_number(s: Seq<char>, k: int) -> nat {
    let fields = ws_fields(stat_rest(s));
    if 0 <= k < fields.len() {
        match parse_u64(fields[k]) {
            Some(v) => v as nat,
            None => 0,
        }
    } else {
        0
    }
}

/// Clock ticks spent by the process: user time (field 11) plus system time (field 12).
pub open spec fn stat_ticks(s: Seq<char>) -> nat {
    stat_number(s, 11) + stat_number(s, 12)
}

/// Resident memory in bytes: the page count (field 21) times the page size.
pub open spec fn stat_rss(s: Seq<char>, page_size: u64) -> nat {
    stat_number(s, 21) * (page_size as nat)
}

/// Whether the line has both parentheses that delimit the process name.
pub open spec fn stat_has_name(s: Seq<char>) -> bool {
    stat_open(s) is Some && stat_close(s) is Some
}

/// Whether the line can be read without a panic: where it has both
/// parentheses the last `)` follows the first `(`, and the sums fit in 64 bits.
pub open spec fn stat_readable(s: Seq<char>, page_size: u64) -> bool {
    stat_has_name(s) ==> {
        &&& stat_open(s).unwrap() < stat_close(s).unwrap()
        &&& stat_ticks(s) <= u64::MAX
        &&& stat_rss(s, page_size) <= u64::MAX
    }
}

proof fn lemma_find_from(s: Seq<char>, c: char, i: int)
    requires
        0 <= i <= s.len(),
    ensures
        find_from(s, c, i) matches Some(k) ==> i <= k < s.len() && s[k] == c && forall|j: int|
            i <= j < k ==> s[j] != c,
        find_from(s, c, i) is None ==> forall|j: int| i <= j < s.len() ==> s[j] != c,
    decreases s.len() - i,
{
    if i < s.len() {
        lemma_find_from(s, c, i + 1);
    }
}

proof fn lemma_rfind_before(s: Seq<char>, c: char, i: int)
    requires
        0 <= i <= s.len(),
    ensures
        rfind_before(s, c, i) matches Some(k) ==> 0 <= k < i && s[k] == c && forall|j: int|
            k < j < i ==> s[j] != c,
        rfind_before(s, c, i) is None ==> forall|j: int| 0 <= j < i ==> s[j] != c,
    decreases i,
{
    if i > 0 {
        lemma_rfind_before(s, c, i - 1);
    }
}

fn find_char(s: &Vec<char>, c: char) -> (r: Option<usize>)
    ensures
        match r {
            Some(k) => find_from(s@, c, 0) == Some(k as int),
            None => find_from(s@, c, 0) is None,
        },
{
    let mut i: usize = 0;
    while i < s.len()
        invariant
            i <= s@.len(),
            find_from(s@, c, 0) == find_from(s@, c, i as int),
        decreases s.len() - i,
    {
        if s[i] == c {
            return Some(i);
        }
        i += 1;
    }
    None
}

fn rfind_char(s: &Vec<char>, c: char) -> (r: Option<usize>)
    ensures
        match r {
            Some(k) => rfind_before(s@, c, s@.len() as int) == Some(k as int),
            None => rfind_before(s@, c, s@.len() as int) is None,
        },
{
    let mut i: usize = s.len();
    while i > 0
        invariant
            i <= s@.len(),
            rfind_before(s@, c, s@.len() as int) == rfind_before(s@, c, i as int),
        decreases i,
    {
        if s[i - 1] == c {
            return Some(i - 1);
        }
        i -= 1;
    }
    None
}

/// Index of the first non-whitespace character at or after `from`.
fn skip_whitespace(s: &Vec<char>, from: usize) -> (r: usize)
    requires
        from <= s@.len(),
    ensures
        from <= r <= s@.len(),
        s@.skip(r as int) == trim_start(s@.skip(from as int)),
{
    let mut i = from;
    while i < s.len() && is_whitespace(s[i])
        invariant
            from <= i <= s@.len(),
            trim_start(s@.skip(from as int)) == trim_start(s@.skip(i as int)),
        decreases s.len() - i,
    {
        assert(s@.skip(i as int).drop_first() =~= s@.skip(i + 1));
        i += 1;
    }
    if i < s.len() {
        assert(s@.skip(i as int)[0] == s@[i as int]);
    } else {
        assert(s@.skip(i as int).len() == 0);
    }
    i
}

/// Field `k` of the spans, read as a number, or 0.
fn number_or_zero(s: &Vec<char>, spans: &Vec<Span>, k: usize) -> (r: u64)
    requires
        forall|j: int|
            0 <= j < spans@.len() ==> (#[trigger] spans@[j]).start <= spans@[j].end <= s@.len(),
    ensures
        r == (if k < spans@.len() {
            match parse_u64(span_text(s@, spans@[k as int])) {
                Some(v) => v as nat,
                None => 0,
            }
        } else {
            0
        }),
{
    if k < spans.len() {
        match parse_u64_span(s, spans[k].start, spans[k].end) {
            Some(v) => v,
            None => 0,
        }
    } else {
        0
    }
}

/// Whether `content` can be given to [`parse_stat_content`]: see [`stat_readable`].
pub fn stat_content_readable(content: &str, page_size: u64) -> (b: bool)
    ensures
        b == stat_readable(content@, page_size),
{
    let s = chars_of(content);
    let open = find_char(&s, '(');
    let close = rfind_char(&s, ')');
    match (open, close) {
        (Some(a), Some(b)) => {
            proof {
                lemma_rfind_before(s@, ')', s@.len() as int);
            }
            assert(b < s.len());
            if a >= b {
                return false;
            }
            let p = skip_whitespace(&s, b + 1);
            let spans = field_spans(&s, p);
            let utime = number_or_zero(&s, &spans, 11);
            let stime = number_or_zero(&s, &spans, 12);
            let pages = number_or_zero(&s, &spans, 21);
            proof {
                assert forall|k: int| 0 <= k < spans@.len() implies #[trigger] span_text(
                    s@,
                    spans@[k],
                ) == ws_fields(stat_rest(s@))[k] by {}
            }
            assert(utime == stat_number(s@, 11));
            assert(stime == stat_number(s@, 12));
            assert(pages == stat_number(s@, 21));
            if utime > u64::MAX - stime {
                return false;
            }
            if page_size > 0 && pages > u64::MAX / page_size {
                proof {
                    assert(pages * page_size > u64::MAX) by (nonlinear_arith)
                        requires
                            page_size > 0,
                            pages > u64::MAX / page_size,
                    ;
                }
                return false;
            }
            proof {
                if page_size > 0 {
                    assert(pages * page_size <= u64::MAX) by (nonlinear_arith)
                        requires
                            page_size > 0,
                            pages <= u64::MAX / page_size,
                    ;
                }
            }
            true
        },
        _ => true,
    }
}

/// `snap` is what the stat line `s` of process `pid` reads as: the name
/// between the first `(` and the last `)`, the first character after the last
/// `)` and its whitespace (or `?`), the ticks and the resident memory.
pub open spec fn reads_stat_line(pid: u32, s: Seq<char>, page_size: u64, snap: RawSnapshot) -> bool {
    let rest = stat_rest(s);
    &&& snap.pid == pid
    &&& snap.name@ == s.subrange(stat_open(s).unwrap() + 1, stat_close(s).unwrap())
    &&& snap.state == (if rest.len() > 0 {
        rest[0]
    } else {
        '?'
    })
    &&& snap.total_ticks == stat_ticks(s)
    &&& snap.rss == stat_rss(s, page_size)
}

/// The number that field `k` of `fields` holds: 0 where there is no field `k`
/// or it is not a number.
pub open spec fn field_number(fields: Seq<Seq<char>>, k: int) -> nat {
    if 0 <= k < fields.len() {
        match parse_u64(fields[k]) {
            Some(v) => v as nat,
            None => 0,
        }
    } else {
        0
    }
}

/// What a stat line reads as, in terms of the line itself: where `a` is the
/// first `(` and `b` the last `)`, the name is what lies between them; after
/// `b` and its whitespace come the state letter (or `?` where nothing does)
/// and the fields; the ticks are field 11 (user time) plus field 12 (system
/// time), and the resident memory is field 21 (pages) times the page size.
pub proof fn lemma_stat_snapshot_reads_the_line(
    pid: u32,
    s: Seq<char>,
    page_size: u64,
    snap: RawSnapshot,
    a: int,
    b: int,
)
    requires
        reads_stat_line(pid, s, page_size, snap),
        0 <= a < s.len(),
        0 <= b < s.len(),
        s[a] == '(',
        s[b] == ')',
        forall|j: int| 0 <= j < a ==> s[j] != '(',
        forall|j: int| b < j < s.len() ==> s[j] != ')',
    ensures
        snap.pid == pid,
        a < b ==> snap.name@ == s.subrange(a + 1, b),
        ({
            let rest = trim_start(s.skip(b + 1));
            let fields = ws_fields(rest);
            &&& snap.state == (if rest.len() > 0 {
                rest[0]
            } else {
                '?'
            })
            &&& snap.total_ticks == field_number(fields, 11) + field_number(fields, 12)
            &&& snap.rss == field_number(fields, 21) * (page_size as nat)
        }),
{
    lemma_find_from(s, '(', 0);
    lemma_rfind_before(s, ')', s.len() as int);
    let o = stat_open(s).unwrap();
    let c = stat_close(s).unwrap();
    assert(o == a);
    assert(c == b);
}

/// Only the user and system times count: two lines whose fields 11 and 12
/// hold the same numbers give the same ticks, whatever their other fields
/// hold (the times of waited-for children, fields 13 and 14, among them).
pub proof fn lemma_ticks_ignore_other_fields(
    pid1: u32,
    s1: Seq<char>,
    snap1: RawSnapshot,
    pid2: u32,
    s2: Seq<char>,
    snap2: RawSnapshot,
    page_size: u64,
)
    requires
        reads_stat_line(pid1, s1, page_size, snap1),
        reads_stat_line(pid2, s2, page_size, snap2),
        field_number(ws_fields(stat_rest(s1)), 11) == field_number(ws_fields(stat_rest(s2)), 11),
        field_number(ws_fields(stat_rest(s1)), 12) == field_number(ws_fields(stat_rest(s2)), 12),
    ensures
        snap1.total_ticks == snap2.total_ticks,
{
}

/// Reads one `/proc/<pid>/stat` line: the name between the first `(` and the
/// last `)`, the state letter that follows (or `?`), the clock ticks and the
/// resident memory. `None` where the name is not delimited.
pub fn parse_stat_content(pid: u32, content: &str, page_size: u64) -> (r: Option<RawSnapshot>)
    requires
        stat_readable(content@, page_size),
    ensures
        r is Some <==> stat_has_name(content@),
        r matches Some(snap) ==> reads_stat_line(pid, content@, page_size, snap),
{
    let s = chars_of(content);
    let open = find_char(&s, '(');
    let close = rfind_char(&s, ')');
    let (a, b) = match (open, close) {
        (Some(a), Some(b)) => {
            proof {
                lemma_rfind_before(s@, ')', s@.len() as int);
            }
            (a, b)
        },
        _ => {
            return None;
        },
    };
    assert(close == Some(b));
    assert(b < s.len());
    let mut name = String::new();
    push_chars(&mut name, &s, a + 1, b);
    let p = skip_whitespace(&s, b + 1);
    let state = if p < s.len() {
        s[p]
    } else {
        '?'
    };
    let spans = field_spans(&s, p);
    let utime = number_or_zero(&s, &spans, 11);
    let stime = number_or_zero(&s, &spans, 12);
    let pages = number_or_zero(&s, &spans, 21);
    assert(utime == stat_number(s@, 11));
    assert(stime == stat_number(s@, 12));
    assert(pages == stat_number(s@, 21));
    assert(Seq::<char>::empty() + s@.subrange(a + 1, b as int) =~= s@.subrange(a + 1, b as int));
    Some(RawSnapshot { pid, name, state, rss: pages * page_size, total_ticks: utime + stime })
}

// ---------------------------------------------------------------------------
// `/proc/stat`
/// The first line of `s` (`str::lines().next()`, whose trailing `\r` is
/// whitespace and so changes no field).
pub open spec fn first_line(s: Seq<char>) -> Seq<char> {
    match find_from(s, '\n', 0) {
        Some(i) => s.take(i),
        None => s,
    }
}

/// The sum of the fields that read as numbers; the others count for nothing.
pub open spec fn sum_numbers(fields: Seq<Seq<char>>) -> nat
    decreases fields.len(),
{
    if fields.len() == 0 {
        0
    } else {
        sum_numbers(fields.drop_last()) + match parse_u64(fields.last()) {
            Some(v) => v as nat,
            None => 0,
        }
    }
}

/// The counters of the first line of `/proc/stat`, after its label.
pub open spec fn cpu_counters(s: Seq<char>) -> Seq<Seq<char>> {
    let fields = ws_fields(first_line(s));
    if fields.len() > 0 {
        fields.drop_first()
    } else {
        fields
    }
}

/// Total clock ticks of the system: the sum of the counters of the first line.
pub open spec fn system_ticks(s: Seq<char>) -> nat {
    sum_numbers(cpu_counters(s))
}

proof fn lemma_sum_numbers_prefix(fields: Seq<Seq<char>>, k: int)
    requires
        0 <= k <= fields.len(),
    ensures
        sum_numbers(fields.take(k)) <= sum_numbers(fields),
    decreases fields.len() - k,
{
    if k < fields.len() {
        lemma_sum_numbers_prefix(fields, k + 1);
        assert(fields.take(k + 1).drop_last() =~= fields.take(k));
    } else {
        assert(fields.take(k) =~= fields);
    }
}

/// The counters of the first line and, where their sum fits in 64 bits, that sum.
fn counters_sum(content: &str) -> (r: Option<u64>)
    ensures
        r matches Some(v) ==> v == system_ticks(content@),
        r is None ==> system_ticks(content@) > u64::MAX,
{
    let mut s = chars_of(content);
    match find_char(&s, '\n') {
        Some(i) => {
            proof {
                lemma_find_from(s@, '\n', 0);
            }
            s.truncate(i);
        },
        None => {},
    }
    assert(s@ == first_line(content@));
    let spans = field_spans(&s, 0);
    assert(s@.skip(0) =~= s@);
    let ghost fields = ws_fields(s@);
    let ghost counters = cpu_counters(content@);
    let mut total: u64 = 0;
    let mut k: usize = 1;
    if spans.len() == 0 {
        return Some(0);
    }
    while k < spans.len()
        invariant
            1 <= k <= spans@.len(),
            spans@.len() == fields.len(),
            counters == fields.drop_first(),
            counters == cpu_counters(content@),
            forall|j: int|
                0 <= j < spans@.len() ==> (#[trigger] spans@[j]).start <= spans@[j].end
                    <= s@.len() && span_text(s@, spans@[j]) == fields[j],
            total == sum_numbers(counters.take(k - 1)),
        decreases spans.len() - k,
    {
        let v = match parse_u64_span(&s, spans[k].start, spans[k].end) {
            Some(v) => v,
            None => 0,
        };
        assert(counters.take(k as int).drop_last() =~= counters.take(k - 1));
        assert(counters.take(k as int).last() == fields[k as int]);
        assert(sum_numbers(counters.take(k as int)) == total + v);
        if total > u64::MAX - v {
            proof {
                lemma_sum_numbers_prefix(counters, k as int);
            }
            return None;
        }
        total = total + v;
        k += 1;
    }
    assert(counters.take(k - 1) =~= counters);
    Some(total)
}

/// Whether the counters of `content` can be summed without overflow.
pub fn system_ticks_fit(content: &str) -> (b: bool)
    ensures
        b == (system_ticks(content@) <= u64::MAX),
{
    counters_sum(content).is_some()
}

/// Total clock ticks from the text of `/proc/stat`: `None` for an empty text,
/// else the sum of the numbers that follow the label of the first line.
pub fn total_system_ticks(content: &str) -> (r: Option<u64>)
    requires
        system_ticks(content@) <= u64::MAX,
    ensures
        r == (if content@.len() == 0 {
            None
        } else {
            Some(system_ticks(content@) as u64)
        }),
{
    if content.is_empty() {
        return None;
    }
    counters_sum(content)
}

/// Reads the name of a `/proc` entry as a process id (`u32::from_str`).
pub fn pid_of_entry(name: &str) -> (r: Option<u32>)
    ensures
        r == parse_u32(name@),
{
    let s = chars_of(name);
    assert(s@.subrange(0, s@.len() as int) =~= s@);
    parse_u32_span(&s, 0, s.len())
}

/// The page size to use for a `sysconf(_SC_PAGESIZE)` answer: the answer
/// where it is positive, else 4096.
pub fn page_size_from_sysconf(answer: i64) -> (r: u64)
    ensures
        r == (if answer > 0 {
            answer as u64
        } else {
            4096
        }),
{
    if answer > 0 {
        answer as u64
    } else {
        4096
    }
}

// ---------------------------------------------------------------------------
// Sampling
/// The ticks of the last snapshot of `pid` in `before`, the one that a map
/// filled in order keeps.
pub open spec fn last_ticks(before: Seq<RawSnapshot>, pid: u32) -> Option<u64>
    decreases before.len(),
{
    if before.len() == 0 {
        None
    } else if before.last().pid == pid {
        Some(before.last().total_ticks)
    } else {
        last_ticks(before.drop_last(), pid)
    }
}

/// Ticks a process spent between two samples: `None` where it was not in
/// the first, else the growth of its counter (0 where the counter fell).
pub open spec fn tick_delta(before: Seq<RawSnapshot>, now: RawSnapshot) -> Option<u64> {
    match last_ticks(before, now.pid) {
        Some(t) => Some(if now.total_ticks >= t {
            (now.total_ticks - t) as u64
        } else {
            0
        }),
        None => None,
    }
}

/// For each process of the second sample, the ticks it spent since the first.
pub fn process_tick_deltas(before: &Vec<RawSnapshot>, after: &Vec<RawSnapshot>) -> (r: Vec<
    Option<u64>,
>)
    ensures
        r@.len() == after@.len(),
        forall|i: int| 0 <= i < r@.len() ==> r@[i] == tick_delta(before@, #[trigger] after@[i]),
{
    let mut r: Vec<Option<u64>> = Vec::new();
    let mut i: usize = 0;
    while i < after.len()
        invariant
            i <= after@.len(),
            r@.len() == i,
            forall|j: int| 0 <= j < i ==> r@[j] == tick_delta(before@, #[trigger] after@[j]),
        decreases after.len() - i,
    {
        let now = &after[i];
        let mut k = before.len();
        let mut found: Option<u64> = None;
        assert(before@.take(before@.len() as int) =~= before@);
        while k > 0
            invariant_except_break
                k <= before@.len(),
                last_ticks(before@, now.pid) == last_ticks(before@.take(k as int), now.pid),
                found is None,
            ensures
                found == last_ticks(before@, now.pid),
            decreases k,
        {
            assert(before@.take(k as int).drop_last() =~= before@.take(k - 1));
            if before[k - 1].pid == now.pid {
                found = Some(before[k - 1].total_ticks);
                break;
            }
            k -= 1;
        }
        proof {
            if k == 0 && found is None {
                assert(before@.take(0) =~= Seq::<RawSnapshot>::empty());
            }
        }
        assert(before@.take(before@.len() as int) =~= before@);
        let delta = match found {
            Some(t) => Some(now.total_ticks.saturating_sub(t)),
            None => None,
        };
        r.push(delta);
        i += 1;
    }
    r
}

} // verus!
