//! Sorting and limiting listings, and the query and output options.
use vstd::prelude::*;

verus! {

/// Direction of a sort.
#[derive(Clone, Copy, Debug, PartialEq, Eq, Structural)]
pub enum SortOrder {
    Asc,
    Desc,
}

impl Default for SortOrder {
    fn default() -> (r: Self)
        ensures
            r == SortOrder::Asc,
    {
        SortOrder::Asc
    }
}

/// How results are printed: a human-readable table or JSON.
#[derive(Clone, Copy, Debug, PartialEq, Eq, Structural)]
pub enum OutputFormat {
    Table,
    Json,
}

impl Default for OutputFormat {
    fn default() -> (r: Self)
        ensures
            r == OutputFormat::Table,
    {
        OutputFormat::Table
    }
}

/// Output options shared by the commands.
#[derive(Clone, Copy, Debug)]
pub struct OutputArgs {
    pub format: OutputFormat,
}

/// Sorting and limiting options of a listing; `F` names the sortable fields.
#[derive(Debug)]
pub struct QueryArgs<F> {
    pub sort: Option<F>,
    pub order: SortOrder,
    pub limit: Option<usize>,
}

/// The first `limit` entries of `s`; a limit of 0, or none, keeps them all.
pub open spec fn limited<T>(s: Seq<T>, limit: Option<usize>) -> Seq<T> {
    match limit {
        Some(lim) => if lim > 0 && lim < s.len() {
            s.take(lim as int)
        } else {
            s
        },
        None => s,
    }
}

/// Keeps at most `limit` entries (the first ones); a limit of 0, or none,
/// keeps them all.
pub fn apply_limit<T>(entries: &mut Vec<T>, limit: Option<usize>)
    ensures
        final(entries)@ == limited(old(entries)@, limit),
{
    if let Some(lim) = limit {
        if lim == 0 {
            return ;
        }
        entries.truncate(lim);
    }
}

// ---------------------------------------------------------------------------
// Sort keys
/// A value by which entries are ordered: a number, or a text compared
/// character by character (which is the byte order of its UTF-8 encoding).
#[derive(Debug)]
pub enum SortKey {
    Number(u64),
    Text(Vec<char>),
}

/// What a [`SortKey`] holds.
pub enum KeyView {
    Number(u64),
    Text(Seq<char>),
}

impl View for SortKey {
    type V = KeyView;

    open spec fn view(&self) -> KeyView {
        match self {
            SortKey::Number(n) => KeyView::Number(*n),
            SortKey::Text(t) => KeyView::Text(t@),
        }
    }
}

/// Lexicographic order of texts by code point, a prefix first (`str::cmp`).
pub open spec fn text_le(a: Seq<char>, b: Seq<char>) -> bool
    decreases a.len(),
{
    if a.len() == 0 {
        true
    } else if b.len() == 0 {
        false
    } else if (a[0] as u32) < (b[0] as u32) {
        true
    } else if (a[0] as u32) > (b[0] as u32) {
        false
    } else {
        text_le(a.drop_first(), b.drop_first())
    }
}

/// The order of keys: numbers by value, texts lexicographically (numbers
/// before texts, which a listing never mixes).
pub open spec fn key_le(a: KeyView, b: KeyView) -> bool {
    match (a, b) {
        (KeyView::Number(x), KeyView::Number(y)) => x <= y,
        (KeyView::Text(x), KeyView::Text(y)) => text_le(x, y),
        (KeyView::Number(_), KeyView::Text(_)) => true,
        (KeyView::Text(_), KeyView::Number(_)) => false,
    }
}

/// Two keys that neither orders before the other.
pub open spec fn key_eq(a: KeyView, b: KeyView) -> bool {
    key_le(a, b) && key_le(b, a)
}

/// The text order is total.
pub proof fn lemma_text_le_total(a: Seq<char>, b: Seq<char>)
    ensures
        text_le(a, b) || text_le(b, a),
    decreases a.len(),
{
    if a.len() > 0 && b.len() > 0 && (a[0] as u32) == (b[0] as u32) {
        lemma_text_le_total(a.drop_first(), b.drop_first());
    }
}

/// The text order is transitive.
pub proof fn lemma_text_le_trans(a: Seq<char>, b: Seq<char>, c: Seq<char>)
    requires
        text_le(a, b),
        text_le(b, c),
    ensures
        text_le(a, c),
    decreases a.len(),
{
    if a.len() > 0 && b.len() > 0 && c.len() > 0 && (a[0] as u32) == (b[0] as u32) && (b[0]
        as u32) == (c[0] as u32) {
        lemma_text_le_trans(a.drop_first(), b.drop_first(), c.drop_first());
    }
}

/// The key order is total.
pub proof fn lemma_key_le_total(a: KeyView, b: KeyView)
    ensures
        key_le(a, b) || key_le(b, a),
{
    match (a, b) {
        (KeyView::Text(x), KeyView::Text(y)) => lemma_text_le_total(x, y),
        _ => {},
    }
}

/// The key order is transitive.
pub proof fn lemma_key_le_trans(a: KeyView, b: KeyView, c: KeyView)
    requires
        key_le(a, b),
        key_le(b, c),
    ensures
        key_le(a, c),
{
    match (a, b, c) {
        (KeyView::Text(x), KeyView::Text(y), KeyView::Text(z)) => lemma_text_le_trans(x, y, z),
        _ => {},
    }
}

fn text_le_exec(a: &Vec<char>, b: &Vec<char>) -> (r: bool)
    ensures
        r == text_le(a@, b@),
{
    let mut i: usize = 0;
    assert(a@.skip(0) =~= a@);
    assert(b@.skip(0) =~= b@);
    while i < a.len() && i < b.len() && a[i] as u32 == b[i] as u32
        invariant
            i <= a@.len(),
            i <= b@.len(),
            text_le(a@, b@) == text_le(a@.skip(i as int), b@.skip(i as int)),
        decreases a.len() - i,
    {
        assert(a@.skip(i as int).drop_first() =~= a@.skip(i + 1));
        assert(b@.skip(i as int).drop_first() =~= b@.skip(i + 1));
        i += 1;
    }
    let ghost sa = a@.skip(i as int);
    let ghost sb = b@.skip(i as int);
    if i == a.len() {
        assert(sa.len() == 0);
        true
    } else if i == b.len() {
        assert(sb.len() == 0);
        false
    } else {
        assert(sa[0] == a@[i as int] && sb[0] == b@[i as int]);
        (a[i] as u32) < (b[i] as u32)
    }
}

/// Decides [`key_le`].
pub fn key_le_exec(a: &SortKey, b: &SortKey) -> (r: bool)
    ensures
        r == key_le(a@, b@),
{
    match (a, b) {
        (SortKey::Number(x), SortKey::Number(y)) => *x <= *y,
        (SortKey::Text(x), SortKey::Text(y)) => text_le_exec(x, y),
        (SortKey::Number(_), SortKey::Text(_)) => true,
        (SortKey::Text(_), SortKey::Number(_)) => false,
    }
}

/// Entries that can be ordered by one of their fields.
pub trait Sortable: Sized {
    /// The fields by which entries can be sorted.
    type Field;

    /// The key of `self` for `field`.
    spec fn key_view(&self, field: Self::Field) -> KeyView;

    /// Computes the key of `self` for `field`.
    fn sort_key(&self, field: &Self::Field) -> (k: SortKey)
        ensures
            k@ == self.key_view(*field),
    ;
}

// ---------------------------------------------------------------------------
// Stable sorting
/// `p` is a bijection of `[0, n)`.
pub open spec fn is_permutation(p: Seq<int>, n: nat) -> bool {
    &&& p.len() == n
    &&& forall|i: int| 0 <= i < n ==> 0 <= #[trigger] p[i] < n
    &&& forall|i: int, j: int| 0 <= i < j < n ==> #[trigger] p[i] != #[trigger] p[j]
    &&& forall|v: int| 0 <= v < n ==> #[trigger] hits(p, v)
}

/// `v` occurs in `p`.
pub open spec fn hits(p: Seq<int>, v: int) -> bool {
    exists|i: int| 0 <= i < p.len() && p[i] == v
}

/// `output` is `input` rearranged by `p` (`output[i] == input[p[i]]`), in
/// ascending order of `key`, with entries of equal keys in their order in `input`.
pub open spec fn is_stable_arrangement<T>(
    input: Seq<T>,
    output: Seq<T>,
    key: spec_fn(T) -> KeyView,
    p: Seq<int>,
) -> bool {
    &&& output.len() == input.len()
    &&& is_permutation(p, input.len())
    &&& forall|i: int| 0 <= i < output.len() ==> #[trigger] output[i] == input[p[i]]
    &&& forall|i: int, j: int|
        0 <= i < j < output.len() ==> key_le(key(#[trigger] output[i]), key(#[trigger] output[j]))
    &&& forall|i: int, j: int|
        0 <= i < j < output.len() && key_eq(key(#[trigger] output[i]), key(#[trigger] output[j]))
            ==> p[i] < p[j]
}

/// `output` is the stable sort of `input` by `key`.
pub open spec fn is_stable_sort<T>(input: Seq<T>, output: Seq<T>, key: spec_fn(T) -> KeyView) -> bool {
    exists|p: Seq<int>| is_stable_arrangement(input, output, key, p)
}

/// The result of sorting `input` by `field` in `order`: the stable ascending
/// sort, reversed for a descending order.
pub open spec fn is_sorted_listing<T: Sortable>(
    input: Seq<T>,
    output: Seq<T>,
    field: T::Field,
    order: SortOrder,
) -> bool {
    let key = |e: T| e.key_view(field);
    match order {
        SortOrder::Asc => is_stable_sort(input, output, key),
        SortOrder::Desc => is_stable_sort(input, output.reverse(), key),
    }
}

proof fn lemma_arrangements_agree_at<T>(
    input: Seq<T>,
    out1: Seq<T>,
    out2: Seq<T>,
    key: spec_fn(T) -> KeyView,
    p1: Seq<int>,
    p2: Seq<int>,
    i: int,
)
    requires
        is_stable_arrangement(input, out1, key, p1),
        is_stable_arrangement(input, out2, key, p2),
        0 <= i < input.len(),
        forall|j: int| 0 <= j < i ==> p1[j] == p2[j],
    ensures
        p1[i] == p2[i],
{
    let n = input.len() as int;
    let a = p1[i];
    let b = p2[i];
    if a != b {
        assert(hits(p2, a));
        let j2 = choose|j: int| 0 <= j < p2.len() && p2[j] == a;
        assert(hits(p1, b));
        let j1 = choose|j: int| 0 <= j < p1.len() && p1[j] == b;
        if j2 < i {
            assert(p1[j2] == a);
        }
        if j1 < i {
            assert(p1[j1] == p2[j1]);
        }
        assert(j2 > i && j1 > i);
        assert(out2[i] == input[b] && out2[j2] == input[a]);
        assert(out1[i] == input[a] && out1[j1] == input[b]);
        assert(key_le(key(out2[i]), key(out2[j2])));
        assert(key_le(key(out1[i]), key(out1[j1])));
        assert(key_eq(key(out2[i]), key(out2[j2])));
        assert(key_eq(key(out1[i]), key(out1[j1])));
        assert(b < a);
        assert(a < b);
    }
}

proof fn lemma_arrangements_agree_below<T>(
    input: Seq<T>,
    out1: Seq<T>,
    out2: Seq<T>,
    key: spec_fn(T) -> KeyView,
    p1: Seq<int>,
    p2: Seq<int>,
    k: int,
)
    requires
        is_stable_arrangement(input, out1, key, p1),
        is_stable_arrangement(input, out2, key, p2),
        0 <= k <= input.len(),
    ensures
        forall|j: int| 0 <= j < k ==> p1[j] == p2[j],
    decreases k,
{
    if k > 0 {
        lemma_arrangements_agree_below(input, out1, out2, key, p1, p2, k - 1);
        lemma_arrangements_agree_at(input, out1, out2, key, p1, p2, k - 1);
    }
}

/// A sequence has only one stable sort by a key: entries with different
/// keys are placed by key, entries with equal keys by their input order.
pub proof fn lemma_stable_sort_unique<T>(
    input: Seq<T>,
    out1: Seq<T>,
    out2: Seq<T>,
    key: spec_fn(T) -> KeyView,
)
    requires
        is_stable_sort(input, out1, key),
        is_stable_sort(input, out2, key),
    ensures
        out1 == out2,
{
    let p1 = choose|p: Seq<int>| is_stable_arrangement(input, out1, key, p);
    let p2 = choose|p: Seq<int>| is_stable_arrangement(input, out2, key, p);
    lemma_arrangements_agree_below(input, out1, out2, key, p1, p2, input.len() as int);
    assert forall|i: int| 0 <= i < out1.len() implies out1[i] == out2[i] by {
        assert(out1[i] == input[p1[i]]);
        assert(out2[i] == input[p2[i]]);
    }
    assert(out1 =~= out2);
}

/// Sorting in descending order gives the ascending result reversed.
pub proof fn lemma_descending_reverses_ascending<T: Sortable>(
    input: Seq<T>,
    asc: Seq<T>,
    desc: Seq<T>,
    field: T::Field,
)
    requires
        is_sorted_listing(input, asc, field, SortOrder::Asc),
        is_sorted_listing(input, desc, field, SortOrder::Desc),
    ensures
        desc == asc.reverse(),
{
    let key = |e: T| e.key_view(field);
    lemma_stable_sort_unique(input, asc, desc.reverse(), key);
    assert(desc =~= desc.reverse().reverse());
}

/// Sorting a listing that is already sorted in ascending order by the same
/// field leaves it as it is.
pub proof fn lemma_sorting_is_idempotent<T: Sortable>(input: Seq<T>, sorted: Seq<T>, again: Seq<T>, field: T::Field)
    requires
        is_sorted_listing(input, sorted, field, SortOrder::Asc),
        is_sorted_listing(sorted, again, field, SortOrder::Asc),
    ensures
        again == sorted,
{
    let key = |e: T| e.key_view(field);
    let id = Seq::new(sorted.len(), |i: int| i);
    assert forall|v: int| 0 <= v < sorted.len() implies #[trigger] hits(id, v) by {
        assert(id[v] == v);
    }
    assert(is_stable_arrangement(sorted, sorted, key, id));
    lemma_stable_sort_unique(sorted, again, sorted, key);
}

/// Position of the first key not below `k` in the sorted `keys`.
fn lower_bound(keys: &Vec<SortKey>, k: &SortKey) -> (pos: usize)
    requires
        forall|i: int, j: int|
            0 <= i < j < keys@.len() ==> key_le(#[trigger] keys@[i]@, #[trigger] keys@[j]@),
    ensures
        pos <= keys@.len(),
        forall|i: int| 0 <= i < pos ==> !key_le(k@, #[trigger] keys@[i]@),
        forall|i: int| pos <= i < keys@.len() ==> key_le(k@, #[trigger] keys@[i]@),
{
    let mut lo: usize = 0;
    let mut hi: usize = keys.len();
    while lo < hi
        invariant
            lo <= hi <= keys@.len(),
            forall|i: int, j: int|
                0 <= i < j < keys@.len() ==> key_le(#[trigger] keys@[i]@, #[trigger] keys@[j]@),
            forall|i: int| 0 <= i < lo ==> !key_le(k@, #[trigger] keys@[i]@),
            forall|i: int| hi <= i < keys@.len() ==> key_le(k@, #[trigger] keys@[i]@),
        decreases hi - lo,
    {
        let mid = lo + (hi - lo) / 2;
        if key_le_exec(k, &keys[mid]) {
            assert forall|i: int| mid <= i < keys@.len() implies key_le(
                k@,
                #[trigger] keys@[i]@,
            ) by {
                if i > mid {
                    lemma_key_le_trans(k@, keys@[mid as int]@, keys@[i]@);
                }
            }
            hi = mid;
        } else {
            assert forall|i: int| 0 <= i <= mid implies !key_le(k@, #[trigger] keys@[i]@) by {
                if i < mid && key_le(k@, keys@[i]@) {
                    lemma_key_le_trans(k@, keys@[i]@, keys@[mid as int]@);
                }
            }
            lo = mid + 1;
        }
    }
    lo
}

/// Sorts `entries` by `sort_field` in ascending order, keeping entries with
/// equal keys in their order, and reverses the result for a descending order.
/// Without a field, `entries` stay as they are.
pub fn apply_sort<T: Sortable>(entries: &mut Vec<T>, sort_field: Option<T::Field>, order: SortOrder)
    ensures
        match sort_field {
            Some(f) => is_sorted_listing(old(entries)@, final(entries)@, f, order),
            None => final(entries)@ == old(entries)@,
        },
{
    let field = match sort_field {
        Some(f) => f,
        None => {
            return ;
        },
    };
    let ghost input = entries@;
    let ghost n = input.len();
    let ghost key = |e: T| e.key_view(field);
    let mut sorted: Vec<T> = Vec::new();
    let mut keys: Vec<SortKey> = Vec::new();
    let ghost mut p: Seq<int> = Seq::empty();
    while entries.len() > 0
        invariant
            n == input.len(),
            key == (|e: T| e.key_view(field)),
            entries@ == input.take(entries@.len() as int),
            entries@.len() <= n,
            sorted@.len() == n - entries@.len(),
            keys@.len() == sorted@.len(),
            p.len() == sorted@.len(),
            forall|i: int| 0 <= i < keys@.len() ==> (#[trigger] keys@[i])@ == key(sorted@[i]),
            forall|i: int|
                0 <= i < p.len() ==> entries@.len() <= #[trigger] p[i] < n && sorted@[i]
                    == input[p[i]],
            forall|i: int, j: int| 0 <= i < j < p.len() ==> #[trigger] p[i] != #[trigger] p[j],
            forall|v: int| entries@.len() <= v < n ==> #[trigger] hits(p, v),
            forall|i: int, j: int|
                0 <= i < j < keys@.len() ==> key_le(#[trigger] keys@[i]@, #[trigger] keys@[j]@),
            forall|i: int, j: int|
                0 <= i < j < keys@.len() && key_eq(#[trigger] keys@[i]@, #[trigger] keys@[j]@)
                    ==> p[i] < p[j],
        decreases entries@.len(),
    {
        let ghost m = entries@.len();
        let x = entries.pop().unwrap();
        assert(entries@ =~= input.take(m - 1));
        assert(x == input[m - 1]);
        let k = x.sort_key(&field);
        let pos = lower_bound(&keys, &k);
        let ghost old_keys = keys@;
        let ghost old_sorted = sorted@;
        let ghost old_p = p;
        sorted.insert(pos, x);
        keys.insert(pos, k);
        proof {
            p = old_p.insert(pos as int, m - 1);
            assert forall|i: int| 0 <= i < keys@.len() implies (#[trigger] keys@[i])@ == key(
                sorted@[i],
            ) by {
                if i < pos {
                    assert(keys@[i] == old_keys[i] && sorted@[i] == old_sorted[i]);
                } else if i > pos {
                    assert(keys@[i] == old_keys[i - 1] && sorted@[i] == old_sorted[i - 1]);
                }
            }
            assert forall|i: int|
                0 <= i < p.len() implies m - 1 <= #[trigger] p[i] < n && sorted@[i] == input[p[i]] by {
                if i < pos {
                    assert(p[i] == old_p[i]);
                } else if i > pos {
                    assert(p[i] == old_p[i - 1]);
                }
            }
            assert forall|i: int, j: int| 0 <= i < j < p.len() implies #[trigger] p[i]
                != #[trigger] p[j] by {
                if i < pos && j < pos {
                    assert(p[i] == old_p[i] && p[j] == old_p[j]);
                } else if i < pos && j == pos {
                    assert(p[i] == old_p[i]);
                } else if i < pos && j > pos {
                    assert(p[i] == old_p[i] && p[j] == old_p[j - 1]);
                } else if i == pos {
                    assert(p[j] == old_p[j - 1]);
                } else {
                    assert(p[i] == old_p[i - 1] && p[j] == old_p[j - 1]);
                }
            }
            assert forall|v: int| m - 1 <= v < n implies #[trigger] hits(p, v) by {
                if v == m - 1 {
                    assert(p[pos as int] == v);
                } else {
                    assert(hits(old_p, v));
                    let i0 = choose|i: int| 0 <= i < old_p.len() && old_p[i] == v;
                    if i0 < pos {
                        assert(p[i0] == v);
                    } else {
                        assert(p[i0 + 1] == v);
                    }
                }
            }
            assert forall|i: int, j: int| 0 <= i < j < keys@.len() implies key_le(
                #[trigger] keys@[i]@,
                #[trigger] keys@[j]@,
            ) by {
                if i < pos && j < pos {
                    assert(keys@[i] == old_keys[i] && keys@[j] == old_keys[j]);
                } else if i < pos && j == pos {
                    assert(keys@[i] == old_keys[i]);
                    lemma_key_le_total(k@, old_keys[i]@);
                } else if i < pos && j > pos {
                    assert(keys@[i] == old_keys[i] && keys@[j] == old_keys[j - 1]);
                } else if i == pos {
                    assert(keys@[j] == old_keys[j - 1]);
                } else {
                    assert(keys@[i] == old_keys[i - 1] && keys@[j] == old_keys[j - 1]);
                }
            }
            assert forall|i: int, j: int|
                0 <= i < j < keys@.len() && key_eq(
                    #[trigger] keys@[i]@,
                    #[trigger] keys@[j]@,
                ) implies p[i] < p[j] by {
                if i < pos && j < pos {
                    assert(keys@[i] == old_keys[i] && keys@[j] == old_keys[j]);
                    assert(p[i] == old_p[i] && p[j] == old_p[j]);
                } else if i < pos && j == pos {
                    assert(keys@[i] == old_keys[i]);
                } else if i < pos && j > pos {
                    assert(keys@[i] == old_keys[i] && keys@[j] == old_keys[j - 1]);
                    assert(p[i] == old_p[i] && p[j] == old_p[j - 1]);
                } else if i == pos {
                    assert(p[j] == old_p[j - 1]);
                } else {
                    assert(keys@[i] == old_keys[i - 1] && keys@[j] == old_keys[j - 1]);
                    assert(p[i] == old_p[i - 1] && p[j] == old_p[j - 1]);
                }
            }
        }
    }
    proof {
        assert forall|i: int| 0 <= i < sorted@.len() implies #[trigger] sorted@[i] == input[p[i]] by {}
        assert forall|i: int, j: int| 0 <= i < j < sorted@.len() implies key_le(
            key(#[trigger] sorted@[i]),
            key(#[trigger] sorted@[j]),
        ) by {
            assert(keys@[i]@ == key(sorted@[i]) && keys@[j]@ == key(sorted@[j]));
        }
        assert forall|i: int, j: int|
            0 <= i < j < sorted@.len() && key_eq(
                key(#[trigger] sorted@[i]),
                key(#[trigger] sorted@[j]),
            ) implies p[i] < p[j] by {
            assert(keys@[i]@ == key(sorted@[i]) && keys@[j]@ == key(sorted@[j]));
        }
        assert(is_stable_arrangement(input, sorted@, key, p));
    }
    match order {
        SortOrder::Asc => {
            *entries = sorted;
        },
        SortOrder::Desc => {
            let ghost asc = sorted@;
            let mut rev: Vec<T> = Vec::new();
            while sorted.len() > 0
                invariant
                    sorted@ == asc.take(sorted@.len() as int),
                    sorted@.len() <= asc.len(),
                    rev@ == asc.reverse().take(asc.len() - sorted@.len()),
                decreases sorted@.len(),
            {
                let ghost m = sorted@.len();
                let x = sorted.pop().unwrap();
                rev.push(x);
                assert(sorted@ =~= asc.take(m - 1));
                assert(rev@ =~= asc.reverse().take(asc.len() - (m - 1)));
            }
            assert(rev@ =~= asc.reverse());
            assert(rev@.reverse() =~= asc);
            *entries = rev;
        },
    }
}

/// Sorts `entries` as `query` asks, then keeps at most its limit of them.
pub fn apply_query<T: Sortable>(entries: &mut Vec<T>, query: QueryArgs<T::Field>)
    ensures
        match query.sort {
            Some(f) => exists|sorted: Seq<T>|
                is_sorted_listing(old(entries)@, sorted, f, query.order) && final(entries)@
                    == limited(sorted, query.limit),
            None => final(entries)@ == limited(old(entries)@, query.limit),
        },
{
    let ghost before = entries@;
    let ghost field = query.sort;
    apply_sort(entries, query.sort, query.order);
    let ghost sorted = entries@;
    apply_limit(entries, query.limit);
    proof {
        if let Some(f) = field {
            assert(is_sorted_listing(before, sorted, f, query.order));
        }
    }
}

} // verus!
