//! Splitting text into whitespace-separated fields and reading unsigned
//! decimal numbers, as `str::split_whitespace` and `u64::from_str` do.
use vstd::prelude::*;

use crate::text::{decimal, digit_char, is_ws, is_whitespace};

verus! {

/// Length of the longest prefix of `s` without whitespace.
pub open spec fn word_len(s: Seq<char>) -> nat
    decreases s.len(),
{
    if s.len() == 0 || is_ws(s[0]) {
        0
    } else {
        1 + word_len(s.drop_first())
    }
}

/// The whitespace-separated fields of `s`, in order (`str::split_whitespace`).
pub open spec fn ws_fields(s: Seq<char>) -> Seq<Seq<char>>
    decreases s.len(),
{
    if s.len() == 0 {
        Seq::empty()
    } else if is_ws(s[0]) {
        ws_fields(s.drop_first())
    } else {
        let w = word_len(s);
        proof {
            lemma_word_len_bound(s);
        }
        seq![s.take(w as int)] + ws_fields(s.skip(w as int))
    }
}

/// `s` with its leading whitespace removed (`str::trim_start`).
pub open spec fn trim_start(s: Seq<char>) -> Seq<char>
    decreases s.len(),
{
    if s.len() > 0 && is_ws(s[0]) {
        trim_start(s.drop_first())
    } else {
        s
    }
}

/// A position range `[start, end)` into a character sequence.
#[derive(Debug)]
pub struct Span {
    pub start: usize,
    pub end: usize,
}

/// The characters of `s` that `span` covers.
pub open spec fn span_text(s: Seq<char>, span: Span) -> Seq<char> {
    s.subrange(span.start as int, span.end as int)
}

/// A maximal non-whitespace prefix lies within `s` and is followed by whitespace.
pub proof fn lemma_word_len_bound(s: Seq<char>)
    ensures
        word_len(s) <= s.len(),
        forall|k: int| 0 <= k < word_len(s) ==> !is_ws(#[trigger] s[k]),
        word_len(s) < s.len() ==> is_ws(s[word_len(s) as int]),
    decreases s.len(),
{
    if s.len() > 0 && !is_ws(s[0]) {
        lemma_word_len_bound(s.drop_first());
        assert forall|k: int| 0 <= k < word_len(s) implies !is_ws(#[trigger] s[k]) by {
            if k > 0 {
                assert(s[k] == s.drop_first()[k - 1]);
            }
        }
    }
}

proof fn lemma_word_len_step(s: Seq<char>, i: int)
    requires
        0 <= i < s.len(),
        !is_ws(s[i]),
    ensures
        word_len(s.skip(i)) == 1 + word_len(s.skip(i + 1)),
{
    assert(s.skip(i).drop_first() =~= s.skip(i + 1));
}

/// Splits `s` into its whitespace-separated fields, given as spans.
pub fn field_spans(s: &Vec<char>, from: usize) -> (r: Vec<Span>)
    requires
        from <= s@.len(),
    ensures
        r@.len() == ws_fields(s@.skip(from as int)).len(),
        forall|k: int|
            0 <= k < r@.len() ==> from <= r@[k].start <= r@[k].end <= s@.len() && span_text(
                s@,
                #[trigger] r@[k],
            ) == ws_fields(s@.skip(from as int))[k],
{
    let mut r: Vec<Span> = Vec::new();
    let mut i = from;
    let ghost fields: Seq<Seq<char>> = Seq::empty();
    while i < s.len()
        invariant
            from <= i <= s@.len(),
            ws_fields(s@.skip(from as int)) == fields + ws_fields(s@.skip(i as int)),
            r@.len() == fields.len(),
            forall|k: int|
                0 <= k < r@.len() ==> from <= r@[k].start <= r@[k].end <= i && span_text(
                    s@,
                    #[trigger] r@[k],
                ) == fields[k],
        decreases s.len() - i,
    {
        if is_whitespace(s[i]) {
            assert(s@.skip(i as int).drop_first() =~= s@.skip(i + 1));
            i += 1;
        } else {
            let start = i;
            while i < s.len() && !is_whitespace(s[i])
                invariant
                    start <= i <= s@.len(),
                    word_len(s@.skip(start as int)) == (i - start) + word_len(s@.skip(i as int)),
                decreases s.len() - i,
            {
                proof {
                    lemma_word_len_step(s@, i as int);
                }
                i += 1;
            }
            proof {
                let t = s@.skip(i as int);
                if i < s.len() {
                    assert(t[0] == s@[i as int]);
                }
                assert(word_len(t) == 0);
                let u = s@.skip(start as int);
                assert(u[0] == s@[start as int]);
                assert(u.take((i - start) as int) =~= s@.subrange(start as int, i as int));
                assert(u.skip((i - start) as int) =~= t);
                fields = fields.push(s@.subrange(start as int, i as int));
            }
            r.push(Span { start, end: i });
        }
    }
    proof {
        assert(s@.skip(i as int) =~= Seq::<char>::empty());
        assert(fields + Seq::<Seq<char>>::empty() =~= fields);
    }
    r
}

// ---------------------------------------------------------------------------
// Unsigned decimal numbers
/// Whether every character of `s` is an ASCII digit.
pub open spec fn all_digits(s: Seq<char>) -> bool {
    forall|i: int| 0 <= i < s.len() ==> '0' <= #[trigger] s[i] <= '9'
}

/// The value of the ASCII digits `s`, most significant first.
pub open spec fn digits_value(s: Seq<char>) -> nat
    decreases s.len(),
{
    if s.len() == 0 {
        0
    } else {
        digits_value(s.drop_last()) * 10 + ((s.last() as int) - 48) as nat
    }
}

/// What `u64::from_str` gives for `s`: an optional `+`, then at least one
/// ASCII digit and nothing else, with a value that fits in 64 bits.
pub open spec fn parse_u64(s: Seq<char>) -> Option<u64> {
    let d = if s.len() > 0 && s[0] == '+' {
        s.drop_first()
    } else {
        s
    };
    if d.len() > 0 && all_digits(d) && digits_value(d) <= u64::MAX {
        Some(digits_value(d) as u64)
    } else {
        None
    }
}

/// The decimal representation of a number is all digits, and those digits
/// have the number as their value.
pub proof fn lemma_decimal_digits(n: nat)
    ensures
        decimal(n).len() > 0,
        all_digits(decimal(n)),
        digits_value(decimal(n)) == n,
    decreases n,
{
    if n < 10 {
        let d = decimal(n);
        assert(d.drop_last() =~= Seq::<char>::empty());
        assert(d.last() == digit_char(n));
        assert((digit_char(n) as int) == n + 48);
        assert(digits_value(d) == digits_value(d.drop_last()) * 10 + ((d.last() as int) - 48) as nat);
        assert(digits_value(Seq::<char>::empty()) == 0);
    } else {
        lemma_decimal_digits(n / 10);
        let d = decimal(n);
        let c = digit_char(n % 10);
        assert(d == decimal(n / 10).push(c));
        assert(d.drop_last() =~= decimal(n / 10));
        assert(d.last() == c);
        assert((c as int) == n % 10 + 48);
        assert(n == (n / 10) * 10 + n % 10);
        assert(digits_value(d) == digits_value(d.drop_last()) * 10 + ((d.last() as int) - 48) as nat);
        assert(digits_value(d) == digits_value(decimal(n / 10)) * 10 + n % 10);
        assert forall|i: int| 0 <= i < d.len() implies '0' <= #[trigger] d[i] <= '9' by {
            if i < d.len() - 1 {
                assert(d[i] == decimal(n / 10)[i]);
            }
        }
    }
}

/// Reading the decimal representation of a 64-bit number gives the number back.
pub proof fn lemma_decimal_reads_back(n: u64)
    ensures
        parse_u64(decimal(n as nat)) == Some(n),
{
    lemma_decimal_digits(n as nat);
    let d = decimal(n as nat);
    assert(d[0] != '+');
}

/// What `u32::from_str` gives for `s`.
pub open spec fn parse_u32(s: Seq<char>) -> Option<u32> {
    match parse_u64(s) {
        Some(v) => if v <= u32::MAX {
            Some(v as u32)
        } else {
            None
        },
        None => None,
    }
}

/// Reads the characters `s[start..end]` as `u64::from_str` does.
pub fn parse_u64_span(s: &Vec<char>, start: usize, end: usize) -> (r: Option<u64>)
    requires
        start <= end <= s@.len(),
    ensures
        r == parse_u64(s@.subrange(start as int, end as int)),
{
    let ghost t = s@.subrange(start as int, end as int);
    let mut i = start;
    if i < end && s[i] == '+' {
        i += 1;
    }
    let ghost d = s@.subrange(i as int, end as int);
    assert(d =~= (if t.len() > 0 && t[0] == '+' {
        t.drop_first()
    } else {
        t
    }));
    if i == end {
        return None;
    }
    let digits_start = i;
    let mut value: u64 = 0;
    let mut overflow = false;
    while i < end
        invariant
            start <= digits_start <= i <= end <= s@.len(),
            d == s@.subrange(digits_start as int, end as int),
            t == s@.subrange(start as int, end as int),
            d == (if t.len() > 0 && t[0] == '+' {
                t.drop_first()
            } else {
                t
            }),
            all_digits(s@.subrange(digits_start as int, i as int)),
            !overflow ==> value == digits_value(s@.subrange(digits_start as int, i as int)),
            overflow ==> digits_value(s@.subrange(digits_start as int, i as int)) > u64::MAX,
        decreases end - i,
    {
        let c = s[i];
        if !('0' <= c && c <= '9') {
            assert(d[i - digits_start] == c);
            assert(!all_digits(d));
            assert(parse_u64(t) == None::<u64>);
            return None;
        }
        let ghost prefix = s@.subrange(digits_start as int, (i + 1) as int);
        assert(prefix.drop_last() =~= s@.subrange(digits_start as int, i as int));
        assert(prefix.last() == c);
        let dv: u64 = (c as u32 - 48) as u64;
        if !overflow {
            if value > (u64::MAX - dv) / 10 {
                overflow = true;
            } else {
                value = value * 10 + dv;
            }
        }
        i += 1;
    }
    assert(s@.subrange(digits_start as int, i as int) =~= d);
    if overflow {
        None
    } else {
        Some(value)
    }
}

/// Reads the characters `s[start..end]` as `u32::from_str` does.
pub fn parse_u32_span(s: &Vec<char>, start: usize, end: usize) -> (r: Option<u32>)
    requires
        start <= end <= s@.len(),
    ensures
        r == parse_u32(s@.subrange(start as int, end as int)),
{
    match parse_u64_span(s, start, end) {
        Some(v) => if v <= u32::MAX as u64 {
            Some(v as u32)
        } else {
            None
        },
        None => None,
    }
}

} // verus!
