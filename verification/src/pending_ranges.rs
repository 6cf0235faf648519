//! Ranges of stale peers whose data is waiting to be deleted.
//!
//! Deleting the data of a destroyed peer is delayed, because coprocessor
//! requests may still read it.  Each pending range `[start_key, end_key)` is
//! kept, keyed by its start key, together with the region it belonged to and
//! the instant after which it may be cleaned up.  The ranges are kept sorted by
//! start key, and ranges that hold keys never overlap each other; an empty
//! range holds no key and overlaps nothing.

use vstd::prelude::*;
use vstd::slice::slice_to_vec;

use crate::keys_order::{
    compare_keys, lemma_lex_le_lt_transitive, lemma_lex_le_transitive, lemma_lex_lt_asymmetric,
    lemma_lex_lt_irreflexive, lemma_lex_lt_le_transitive, lemma_lex_lt_total, lemma_lex_lt_transitive,
    lex_le, lex_lt, KeyOrder,
};

verus! {

/// What is kept of a stale peer beside its start key.
pub struct StalePeerInfo {
    pub region_id: u64,
    pub end_key: Vec<u8>,
    /// Coarse monotonic clock reading (milliseconds) after which the range
    /// may be deleted.
    pub timeout: u64,
}

/// A pending range as the contracts see it.
pub struct RangeView {
    pub start: Seq<u8>,
    pub region_id: u64,
    pub end: Seq<u8>,
    pub timeout: u64,
}

/// A range as handed out to callers: region id, start key, end key.
pub type RangeTriple = (u64, Vec<u8>, Vec<u8>);

pub open spec fn entry_view(e: (Vec<u8>, StalePeerInfo)) -> RangeView {
    RangeView { start: e.0@, region_id: e.1.region_id, end: e.1.end_key@, timeout: e.1.timeout }
}

pub open spec fn range_triple(e: RangeView) -> (u64, Seq<u8>, Seq<u8>) {
    (e.region_id, e.start, e.end)
}

pub open spec fn triple_view(t: RangeTriple) -> (u64, Seq<u8>, Seq<u8>) {
    (t.0, t.1@, t.2@)
}

pub open spec fn triples_view(v: Seq<RangeTriple>) -> Seq<(u64, Seq<u8>, Seq<u8>)> {
    v.map_values(|t: RangeTriple| triple_view(t))
}

pub open spec fn ranges_triples(s: Seq<RangeView>) -> Seq<(u64, Seq<u8>, Seq<u8>)> {
    s.map_values(|e: RangeView| range_triple(e))
}

/// The range holds at least one key.
pub open spec fn non_empty(e: RangeView) -> bool {
    lex_lt(e.start, e.end)
}

/// The ranges are sorted by start key without repetition, each range is
/// well ordered (`start <= end`), and no range that holds keys reaches into
/// a later one that holds keys.  An empty range `[k, k)` holds no key and may
/// lie anywhere.
pub open spec fn ranges_wf(s: Seq<RangeView>) -> bool {
    &&& forall|i: int, j: int| 0 <= i < j < s.len() ==> lex_lt(#[trigger] s[i].start, #[trigger] s[j].start)
    &&& forall|i: int| 0 <= i < s.len() ==> lex_le(#[trigger] s[i].start, s[i].end)
    &&& forall|i: int, j: int|
        0 <= i < j < s.len() && non_empty(s[i]) && non_empty(s[j]) ==> lex_le(#[trigger] s[i].end, #[trigger] s[j].start)
}

/// `l` is the number of ranges whose start key sorts before `k`.
pub open spec fn is_lower_bound(s: Seq<RangeView>, k: Seq<u8>, l: int) -> bool {
    &&& 0 <= l <= s.len()
    &&& forall|i: int| 0 <= i < l ==> lex_lt(#[trigger] s[i].start, k)
    &&& forall|i: int| l <= i < s.len() ==> !lex_lt(#[trigger] s[i].start, k)
}

/// Index of the first range whose start key is not before `k`.
pub open spec fn lower_bound(s: Seq<RangeView>, k: Seq<u8>) -> int {
    choose|l: int| is_lower_bound(s, k, l)
}

/// The key `k` lies strictly inside the range: after its start, before its
/// end.
pub open spec fn strictly_inside(e: RangeView, k: Seq<u8>) -> bool {
    lex_lt(e.start, k) && lex_lt(k, e.end)
}

/// Some pending range holds `k` strictly inside.
pub open spec fn has_container(s: Seq<RangeView>, k: Seq<u8>) -> bool {
    exists|p: int| 0 <= p < s.len() && strictly_inside(#[trigger] s[p], k)
}

/// Index of the pending range that holds `k` strictly inside.
pub open spec fn container(s: Seq<RangeView>, k: Seq<u8>) -> int {
    choose|p: int| 0 <= p < s.len() && strictly_inside(#[trigger] s[p], k)
}

/// A query `[start, end)` that holds keys reports the range holding `start`
/// strictly inside, when there is one.
pub open spec fn reports_container(s: Seq<RangeView>, start: Seq<u8>, end: Seq<u8>) -> bool {
    lex_lt(start, end) && has_container(s, start)
}

/// The ranges reported as overlapping `[start, end)`, in key order: the range
/// holding `start` strictly inside (for a query that holds keys), then the
/// ranges that start in `[start, end)`.  An empty query overlaps nothing.
pub open spec fn overlap_ranges(s: Seq<RangeView>, start: Seq<u8>, end: Seq<u8>) -> Seq<RangeView> {
    let l = lower_bound(s, start);
    let h = lower_bound(s, end);
    if reports_container(s, start, end) {
        seq![s[container(s, start)]] + s.subrange(l, h)
    } else {
        s.subrange(l, h)
    }
}

/// The ranges that remain once those overlapping `[start, end)` are taken out.
pub open spec fn drained_ranges(s: Seq<RangeView>, start: Seq<u8>, end: Seq<u8>) -> Seq<RangeView> {
    let l = lower_bound(s, start);
    let h = lower_bound(s, end);
    if reports_container(s, start, end) {
        let p = container(s, start);
        s.subrange(0, p) + s.subrange(p + 1, l) + s.subrange(h, s.len() as int)
    } else {
        s.subrange(0, l) + s.subrange(h, s.len() as int)
    }
}

/// A pending range counts as overlapping `[start, end)` when the query holds
/// keys and the range holds `start` strictly inside, or when it starts inside
/// `[start, end)`.
pub open spec fn range_overlaps(e: RangeView, start: Seq<u8>, end: Seq<u8>) -> bool {
    ||| lex_lt(start, end) && strictly_inside(e, start)
    ||| lex_le(start, e.start) && lex_lt(e.start, end)
}

/// The ranges after a range `e` is stored under its start key: it takes the
/// place of a range with the same start key, or is inserted in key order.
pub open spec fn inserted_ranges(s: Seq<RangeView>, e: RangeView) -> Seq<RangeView> {
    let l = lower_bound(s, e.start);
    if l < s.len() && s[l].start == e.start {
        s.update(l, e)
    } else {
        s.insert(l, e)
    }
}

/// The range stored under `key` is present.
pub open spec fn has_key(s: Seq<RangeView>, key: Seq<u8>) -> bool {
    let l = lower_bound(s, key);
    l < s.len() && s[l].start == key
}

/// The ranges whose timeout is not after `now`, in key order.
pub open spec fn timed_out_ranges(s: Seq<RangeView>, now: u64) -> Seq<RangeView> {
    s.filter(timeout_reached(now))
}

/// The range may be cleaned up at `now`.
pub open spec fn timeout_reached(now: u64) -> spec_fn(RangeView) -> bool {
    |e: RangeView| e.timeout <= now
}

/// Ranges waiting to be deleted, keyed by start key.
pub struct PendingDeleteRanges {
    ranges: Vec<(Vec<u8>, StalePeerInfo)>,
}

impl View for PendingDeleteRanges {
    type V = Seq<RangeView>;

    closed spec fn view(&self) -> Seq<RangeView> {
        self.ranges@.map_values(|e: (Vec<u8>, StalePeerInfo)| entry_view(e))
    }
}

pub proof fn lemma_lower_bound_unique(s: Seq<RangeView>, k: Seq<u8>, l: int)
    requires
        is_lower_bound(s, k, l),
    ensures
        lower_bound(s, k) == l,
{
    let m = lower_bound(s, k);
    assert(is_lower_bound(s, k, m));
    if m < l {
        assert(lex_lt(s[m].start, k));
    } else if l < m {
        assert(lex_lt(s[l].start, k));
    }
}

/// In sorted ranges, the lower bound of any key exists.
pub proof fn lemma_lower_bound_exists(s: Seq<RangeView>, k: Seq<u8>)
    requires
        ranges_wf(s),
    ensures
        is_lower_bound(s, k, lower_bound(s, k)),
    decreases s.len(),
{
    if s.len() == 0 {
        assert(is_lower_bound(s, k, 0));
    } else if lex_lt(s.last().start, k) {
        assert forall|i: int| 0 <= i < s.len() implies lex_lt(#[trigger] s[i].start, k) by {
            if i < s.len() - 1 {
                lemma_lex_lt_transitive(s[i].start, s.last().start, k);
            }
        }
        assert(is_lower_bound(s, k, s.len() as int));
    } else {
        let t = s.drop_last();
        assert(ranges_wf(t));
        lemma_lower_bound_exists(t, k);
        let l = lower_bound(t, k);
        assert forall|i: int| 0 <= i < l implies lex_lt(#[trigger] s[i].start, k) by {
            assert(t[i] == s[i]);
        }
        assert forall|i: int| l <= i < s.len() implies !lex_lt(#[trigger] s[i].start, k) by {
            if i < s.len() - 1 {
                assert(t[i] == s[i]);
            }
        }
        assert(is_lower_bound(s, k, l));
    }
}

/// Lower bounds grow with the key.
pub proof fn lemma_lower_bound_monotone(s: Seq<RangeView>, a: Seq<u8>, b: Seq<u8>)
    requires
        ranges_wf(s),
        lex_le(a, b),
    ensures
        lower_bound(s, a) <= lower_bound(s, b),
{
    lemma_lower_bound_exists(s, a);
    lemma_lower_bound_exists(s, b);
    let la = lower_bound(s, a);
    let lb = lower_bound(s, b);
    if lb < la {
        assert(lex_lt(s[lb].start, a));
        lemma_lex_lt_le_transitive(s[lb].start, a, b);
    }
}

/// Taking a block out of well-formed ranges leaves them well formed.
pub proof fn lemma_wf_cut(s: Seq<RangeView>, a: int, b: int)
    requires
        ranges_wf(s),
        0 <= a <= b <= s.len(),
    ensures
        ranges_wf(s.subrange(0, a) + s.subrange(b, s.len() as int)),
{
    let t = s.subrange(0, a) + s.subrange(b, s.len() as int);
    assert forall|i: int| 0 <= i < t.len() implies #[trigger] t[i] == s[if i < a { i } else { i - a + b }] by {
    }
    assert forall|i: int, j: int| 0 <= i < j < t.len() implies lex_lt(#[trigger] t[i].start, #[trigger] t[j].start)
        && (non_empty(t[i]) && non_empty(t[j]) ==> lex_le(t[i].end, t[j].start)) by {
        let i2 = if i < a { i } else { i - a + b };
        let j2 = if j < a { j } else { j - a + b };
        assert(t[i] == s[i2]);
        assert(t[j] == s[j2]);
        assert(i2 < j2);
    }
    assert forall|i: int| 0 <= i < t.len() implies lex_le(#[trigger] t[i].start, t[i].end) by {
        let i2 = if i < a { i } else { i - a + b };
        assert(t[i] == s[i2]);
    }
}

/// At most one pending range holds a key strictly inside; it starts before
/// the key.
pub proof fn lemma_container(s: Seq<RangeView>, k: Seq<u8>)
    requires
        ranges_wf(s),
    ensures
        forall|p: int, q: int|
            0 <= p < s.len() && 0 <= q < s.len() && strictly_inside(#[trigger] s[p], k) && strictly_inside(
                #[trigger] s[q],
                k,
            ) ==> p == q,
        has_container(s, k) ==> {
            let p = container(s, k);
            &&& 0 <= p < s.len()
            &&& strictly_inside(s[p], k)
            &&& p < lower_bound(s, k)
        },
{
    assert forall|p: int, q: int|
        0 <= p < s.len() && 0 <= q < s.len() && strictly_inside(#[trigger] s[p], k) && strictly_inside(
            #[trigger] s[q],
            k,
        ) implies p == q by {
        if p < q {
            lemma_lex_lt_transitive(s[p].start, k, s[p].end);
            lemma_lex_lt_transitive(s[q].start, k, s[q].end);
            lemma_lex_le_lt_transitive(s[p].end, s[q].start, k);
            lemma_lex_lt_asymmetric(k, s[p].end);
        } else if q < p {
            lemma_lex_lt_transitive(s[p].start, k, s[p].end);
            lemma_lex_lt_transitive(s[q].start, k, s[q].end);
            lemma_lex_le_lt_transitive(s[q].end, s[p].start, k);
            lemma_lex_lt_asymmetric(k, s[q].end);
        }
    }
    lemma_lower_bound_exists(s, k);
    if has_container(s, k) {
        let p = container(s, k);
        if p >= lower_bound(s, k) {
            assert(!lex_lt(s[p].start, k));
        }
    }
}

/// Storing a range that overlaps none of the pending ones keeps them well
/// formed.  An empty range overlaps nothing and may always be stored.
pub proof fn lemma_insert_wf(s: Seq<RangeView>, e: RangeView)
    requires
        ranges_wf(s),
        lex_le(e.start, e.end),
        overlap_ranges(s, e.start, e.end).len() == 0,
    ensures
        ranges_wf(inserted_ranges(s, e)),
{
    let l = lower_bound(s, e.start);
    let h = lower_bound(s, e.end);
    lemma_lower_bound_exists(s, e.start);
    lemma_lower_bound_exists(s, e.end);
    lemma_lower_bound_monotone(s, e.start, e.end);
    assert(l == h);
    // no range holding keys holds `e.start` when `e` holds keys
    assert(non_empty(e) ==> !has_container(s, e.start));
    // every range from `l` on starts at or after `e.end`, hence after `e.start`
    assert forall|k: int| l <= k < s.len() implies lex_le(e.end, #[trigger] s[k].start) by {
        lemma_lex_lt_total(s[k].start, e.end);
    }
    assert forall|k: int| l <= k < s.len() implies lex_le(e.start, #[trigger] s[k].start) by {
        lemma_lex_le_transitive(e.start, e.end, s[k].start);
    }
    assert forall|k: int| l < k < s.len() implies lex_lt(e.start, #[trigger] s[k].start) by {
        lemma_lex_le_lt_transitive(e.start, s[l].start, s[k].start);
    }
    // when `e` holds keys, every range before `l` that holds keys ends at or
    // before `e.start`
    assert forall|i: int| 0 <= i < l && non_empty(e) && non_empty(#[trigger] s[i]) implies lex_le(s[i].end, e.start) by {
        lemma_lex_lt_total(s[i].end, e.start);
        if lex_lt(e.start, s[i].end) {
            assert(strictly_inside(s[i], e.start));
        }
    }
    if l < s.len() && s[l].start == e.start {
        let t = s.update(l, e);
        assert(!non_empty(e));
        assert forall|i: int, j: int| 0 <= i < j < t.len() implies lex_lt(#[trigger] t[i].start, #[trigger] t[j].start)
            && (non_empty(t[i]) && non_empty(t[j]) ==> lex_le(t[i].end, t[j].start)) by {
            if i != l && j != l {
                assert(t[i] == s[i] && t[j] == s[j]);
            }
        }
        assert forall|i: int| 0 <= i < t.len() implies lex_le(#[trigger] t[i].start, t[i].end) by {
            if i != l {
                assert(t[i] == s[i]);
            }
        }
        assert(ranges_wf(t));
    } else {
        let t = s.insert(l, e);
        if l < s.len() {
            lemma_lex_lt_total(e.start, s[l].start);
        }
        assert forall|i: int| 0 <= i < t.len() implies #[trigger] t[i] == (if i < l { s[i] } else if i == l { e } else { s[i - 1] }) by {
        }
        assert forall|i: int, j: int| 0 <= i < j < t.len() implies lex_lt(#[trigger] t[i].start, #[trigger] t[j].start)
            && (non_empty(t[i]) && non_empty(t[j]) ==> lex_le(t[i].end, t[j].start)) by {
            if i == l {
                assert(t[j] == s[j - 1]);
            } else if j == l {
                assert(t[i] == s[i]);
            } else if i < l && j < l {
                assert(t[i] == s[i] && t[j] == s[j]);
            } else if i < l {
                assert(t[i] == s[i] && t[j] == s[j - 1]);
            } else {
                assert(t[i] == s[i - 1] && t[j] == s[j - 1]);
            }
        }
        assert forall|i: int| 0 <= i < t.len() implies lex_le(#[trigger] t[i].start, t[i].end) by {
            if i < l {
                assert(t[i] == s[i]);
            } else if i > l {
                assert(t[i] == s[i - 1]);
            }
        }
    }
}

/// Which pending ranges overlap `[start, end)`: the range holding `start`
/// strictly inside, for a query holding keys, and those starting in the
/// block `[lower_bound(start), lower_bound(end))`.
proof fn lemma_overlap_indices(s: Seq<RangeView>, start: Seq<u8>, end: Seq<u8>)
    requires
        ranges_wf(s),
        lex_le(start, end),
    ensures
        lower_bound(s, start) <= lower_bound(s, end) <= s.len(),
        0 <= lower_bound(s, start),
        reports_container(s, start, end) ==> 0 <= container(s, start) < lower_bound(s, start),
        forall|k: int| 0 <= k < s.len() ==> (range_overlaps(#[trigger] s[k], start, end) <==> (
            (reports_container(s, start, end) && k == container(s, start))
            || (lower_bound(s, start) <= k < lower_bound(s, end)))),
{
    let l = lower_bound(s, start);
    let h = lower_bound(s, end);
    lemma_lower_bound_exists(s, start);
    lemma_lower_bound_exists(s, end);
    lemma_lower_bound_monotone(s, start, end);
    lemma_container(s, start);
    assert forall|k: int| 0 <= k < s.len() implies (range_overlaps(#[trigger] s[k], start, end) <==> (
        (reports_container(s, start, end) && k == container(s, start))
        || (l <= k < h))) by {
        if l <= k {
            lemma_lex_lt_total(s[k].start, start);
            if lex_lt(start, end) && strictly_inside(s[k], start) {
                assert(lex_lt(s[k].start, start));
            }
        }
        if k < l {
            if lex_le(start, s[k].start) {
                lemma_lex_le_lt_transitive(start, s[k].start, start);
                lemma_lex_lt_irreflexive(start);
            }
        }
        if lex_lt(start, end) && strictly_inside(s[k], start) {
            assert(has_container(s, start));
        }
    }
}

/// The ranges reported as overlapping `[start, end)` are exactly the pending
/// ranges that overlap it.
pub proof fn lemma_overlap_ranges_exact(s: Seq<RangeView>, start: Seq<u8>, end: Seq<u8>)
    requires
        ranges_wf(s),
        lex_le(start, end),
    ensures
        forall|e: RangeView| #[trigger] overlap_ranges(s, start, end).contains(e)
            <==> (s.contains(e) && range_overlaps(e, start, end)),
{
    let l = lower_bound(s, start);
    let h = lower_bound(s, end);
    lemma_overlap_indices(s, start, end);
    let o = overlap_ranges(s, start, end);
    let c = reports_container(s, start, end);
    let off: int = if c { 1 } else { 0 };
    assert forall|j: int| 0 <= j < o.len() implies #[trigger] o[j] == s[if c && j == 0 { container(s, start) } else { l + j - off }] by {
    }
    assert forall|e: RangeView| #[trigger] o.contains(e) <==> (s.contains(e) && range_overlaps(e, start, end)) by {
        if o.contains(e) {
            let j = choose|j: int| 0 <= j < o.len() && o[j] == e;
            let k = if c && j == 0 { container(s, start) } else { l + j - off };
            assert(o[j] == s[k]);
        }
        if s.contains(e) && range_overlaps(e, start, end) {
            let k = choose|k: int| 0 <= k < s.len() && s[k] == e;
            assert(range_overlaps(s[k], start, end));
            if c && k == container(s, start) {
                assert(o[0] == s[k]);
            } else {
                assert(o[k - l + off] == s[k]);
            }
        }
    }
}

/// Once the ranges overlapping `[start, end)` are drained, the remaining ranges
/// are exactly those that do not overlap it, and none is reported as
/// overlapping any more: a range `[start, end)` may then be inserted.
pub proof fn lemma_drain_leaves_no_overlap(s: Seq<RangeView>, start: Seq<u8>, end: Seq<u8>)
    requires
        ranges_wf(s),
        lex_le(start, end),
    ensures
        ranges_wf(drained_ranges(s, start, end)),
        overlap_ranges(drained_ranges(s, start, end), start, end).len() == 0,
        forall|e: RangeView| #[trigger] drained_ranges(s, start, end).contains(e)
            <==> (s.contains(e) && !range_overlaps(e, start, end)),
{
    let l = lower_bound(s, start);
    let h = lower_bound(s, end);
    lemma_overlap_indices(s, start, end);
    let d = drained_ranges(s, start, end);
    let c = reports_container(s, start, end);
    // where each drained range came from
    let src = |i: int| if c {
        let p = container(s, start);
        if i < p { i } else if i < l - 1 { i + 1 } else { i - (l - 1) + h }
    } else {
        if i < l { i } else { i - l + h }
    };
    if c {
        let p = container(s, start);
        let t = s.subrange(0, l) + s.subrange(h, s.len() as int);
        lemma_wf_cut(s, l, h);
        lemma_wf_cut(t, p, p + 1);
        assert(d =~= t.subrange(0, p) + t.subrange(p + 1, t.len() as int));
    } else {
        lemma_wf_cut(s, l, h);
    }
    assert forall|i: int| 0 <= i < d.len() implies #[trigger] d[i] == s[src(i)] && 0 <= src(i) < s.len()
        && !range_overlaps(s[src(i)], start, end) by {
    }
    assert forall|e: RangeView| #[trigger] d.contains(e) <==> (s.contains(e) && !range_overlaps(e, start, end)) by {
        if d.contains(e) {
            let i = choose|i: int| 0 <= i < d.len() && d[i] == e;
            assert(d[i] == s[src(i)]);
        }
        if s.contains(e) && !range_overlaps(e, start, end) {
            let k = choose|k: int| 0 <= k < s.len() && s[k] == e;
            assert(!range_overlaps(s[k], start, end));
            if c {
                let p = container(s, start);
                if k < p {
                    assert(d[k] == s[k]);
                } else if k < l {
                    assert(d[k - 1] == s[k]);
                } else {
                    assert(d[k - h + l - 1] == s[k]);
                }
            } else {
                if k < l {
                    assert(d[k] == s[k]);
                } else {
                    assert(d[k - h + l] == s[k]);
                }
            }
        }
    }
    lemma_overlap_ranges_exact(d, start, end);
    let od = overlap_ranges(d, start, end);
    if od.len() > 0 {
        assert(od.contains(od[0]));
    }
}

/// The range stored under `key`, if any.
pub open spec fn stored(s: Seq<RangeView>, key: Seq<u8>) -> Option<RangeView> {
    if has_key(s, key) {
        Some(s[lower_bound(s, key)])
    } else {
        None
    }
}

/// In well-formed ranges, the range at index `i` is the one stored under its
/// start key.
pub proof fn lemma_key_index(s: Seq<RangeView>, i: int)
    requires
        ranges_wf(s),
        0 <= i < s.len(),
    ensures
        lower_bound(s, s[i].start) == i,
        has_key(s, s[i].start),
        stored(s, s[i].start) == Some(s[i]),
{
    let k = s[i].start;
    assert forall|j: int| i <= j < s.len() implies !lex_lt(#[trigger] s[j].start, k) by {
        if j == i {
            lemma_lex_lt_irreflexive(k);
        } else {
            lemma_lex_lt_asymmetric(k, s[j].start);
        }
    }
    assert(is_lower_bound(s, k, i));
    lemma_lower_bound_unique(s, k, i);
}

/// Nothing is stored under a key that no range starts with.
pub proof fn lemma_no_key(s: Seq<RangeView>, key: Seq<u8>)
    requires
        ranges_wf(s),
        forall|i: int| 0 <= i < s.len() ==> (#[trigger] s[i]).start != key,
    ensures
        stored(s, key) == None::<RangeView>,
{
    lemma_lower_bound_exists(s, key);
}

/// After a range is stored, a lookup under its start key finds it, and every
/// other key finds what it found before.
pub proof fn lemma_stored_after_insert(s: Seq<RangeView>, e: RangeView, key: Seq<u8>)
    requires
        ranges_wf(s),
        lex_le(e.start, e.end),
        overlap_ranges(s, e.start, e.end).len() == 0,
    ensures
        stored(inserted_ranges(s, e), key) == (if key == e.start { Some(e) } else { stored(s, key) }),
{
    let t = inserted_ranges(s, e);
    let l = lower_bound(s, e.start);
    lemma_lower_bound_exists(s, e.start);
    lemma_insert_wf(s, e);
    let replaced = l < s.len() && s[l].start == e.start;
    // index of `e` in `t`, and where the ranges of `s` went
    assert(t[l] == e);
    lemma_key_index(t, l);
    if key != e.start {
        if exists|i: int| 0 <= i < s.len() && s[i].start == key {
            let i = choose|i: int| 0 <= i < s.len() && s[i].start == key;
            lemma_key_index(s, i);
            let j = if replaced || i < l { i } else { i + 1 };
            assert(t[j] == s[i]);
            lemma_key_index(t, j);
        } else {
            lemma_no_key(s, key);
            assert forall|j: int| 0 <= j < t.len() implies (#[trigger] t[j]).start != key by {
                if j != l {
                    let i = if replaced || j < l { j } else { j - 1 };
                    assert(t[j] == s[i]);
                }
            }
            lemma_no_key(t, key);
        }
    }
}

/// After the range stored under `key` is removed, nothing is stored under
/// `key`, and every other key finds what it found before.
pub proof fn lemma_stored_after_remove(s: Seq<RangeView>, key: Seq<u8>, other: Seq<u8>)
    requires
        ranges_wf(s),
        has_key(s, key),
    ensures
        stored(s.remove(lower_bound(s, key)), other) == (if other == key { None } else { stored(s, other) }),
{
    let l = lower_bound(s, key);
    let t = s.remove(l);
    lemma_lower_bound_exists(s, key);
    assert(t =~= s.subrange(0, l) + s.subrange(l + 1, s.len() as int));
    lemma_wf_cut(s, l, l + 1);
    assert forall|j: int| 0 <= j < t.len() implies #[trigger] t[j] == s[if j < l { j } else { j + 1 }] by {
    }
    if other == key {
        assert forall|j: int| 0 <= j < t.len() implies (#[trigger] t[j]).start != key by {
            let i = if j < l { j } else { j + 1 };
            assert(t[j] == s[i]);
            lemma_key_index(s, i);
        }
        lemma_no_key(t, key);
    } else if exists|i: int| 0 <= i < s.len() && s[i].start == other {
        let i = choose|i: int| 0 <= i < s.len() && s[i].start == other;
        lemma_key_index(s, i);
        let j = if i < l { i } else { i - 1 };
        assert(t[j] == s[i]);
        lemma_key_index(t, j);
    } else {
        lemma_no_key(s, other);
        assert forall|j: int| 0 <= j < t.len() implies (#[trigger] t[j]).start != other by {
            let i = if j < l { j } else { j + 1 };
            assert(t[j] == s[i]);
        }
        lemma_no_key(t, other);
    }
}

/// Storing a range under a new start key and removing it again gives back the
/// range and leaves the pending ranges as they were; there is one range more
/// in between.
pub proof fn lemma_insert_then_remove(s: Seq<RangeView>, e: RangeView)
    requires
        ranges_wf(s),
        lex_le(e.start, e.end),
        overlap_ranges(s, e.start, e.end).len() == 0,
        !has_key(s, e.start),
    ensures
        has_key(inserted_ranges(s, e), e.start),
        inserted_ranges(s, e).len() == s.len() + 1,
        inserted_ranges(s, e)[lower_bound(inserted_ranges(s, e), e.start)] == e,
        inserted_ranges(s, e).remove(lower_bound(inserted_ranges(s, e), e.start)) == s,
{
    let t = inserted_ranges(s, e);
    let l = lower_bound(s, e.start);
    lemma_lower_bound_exists(s, e.start);
    lemma_insert_wf(s, e);
    assert(t == s.insert(l, e));
    assert(t[l] == e);
    lemma_key_index(t, l);
    assert(t.remove(l) =~= s);
}

/// A range is kept by a filter exactly when it is there and passes the test.
proof fn lemma_filter_member(s: Seq<RangeView>, p: spec_fn(RangeView) -> bool, e: RangeView)
    ensures
        s.filter(p).contains(e) <==> (s.contains(e) && p(e)),
    decreases s.len(),
{
    reveal(Seq::filter);
    if s.len() > 0 {
        let t = s.drop_last();
        lemma_filter_member(t, p, e);
        let f = s.filter(p);
        let g = t.filter(p);
        if s.contains(e) && p(e) {
            let k = choose|k: int| 0 <= k < s.len() && s[k] == e;
            if k < s.len() - 1 {
                assert(t[k] == e);
                let j = choose|j: int| 0 <= j < g.len() && g[j] == e;
                if p(s.last()) {
                    assert(f[j] == e);
                }
            } else {
                assert(f[f.len() - 1] == e);
            }
        }
        if f.contains(e) {
            let j = choose|j: int| 0 <= j < f.len() && f[j] == e;
            if p(s.last()) && j == f.len() - 1 {
                assert(s[s.len() - 1] == e);
            } else {
                assert(g[j] == e);
                assert(g.contains(e));
                let k = choose|k: int| 0 <= k < t.len() && t[k] == e;
                assert(s[k] == e);
            }
        }
    }
}

/// The timed-out ranges at `now` are exactly the pending ranges whose timeout
/// is not after `now`.
pub proof fn lemma_timed_out_exact(s: Seq<RangeView>, now: u64)
    ensures
        forall|e: RangeView| #[trigger] timed_out_ranges(s, now).contains(e) <==> (s.contains(e) && e.timeout <= now),
{
    assert forall|e: RangeView| #[trigger] timed_out_ranges(s, now).contains(e) <==> (s.contains(e) && e.timeout <= now) by {
        lemma_filter_member(s, timeout_reached(now), e);
    }
}

/// A range registered after its overlaps were drained is stored under its
/// start key, and it is among the timed-out ranges exactly from its timeout
/// on.
pub proof fn lemma_registered_range_times_out(s: Seq<RangeView>, e: RangeView, now: u64)
    requires
        ranges_wf(s),
        lex_le(e.start, e.end),
    ensures
        stored(inserted_ranges(drained_ranges(s, e.start, e.end), e), e.start) == Some(e),
        timed_out_ranges(inserted_ranges(drained_ranges(s, e.start, e.end), e), now).contains(e)
            <==> e.timeout <= now,
{
    let d = drained_ranges(s, e.start, e.end);
    lemma_drain_leaves_no_overlap(s, e.start, e.end);
    lemma_stored_after_insert(d, e, e.start);
    lemma_insert_wf(d, e);
    let t = inserted_ranges(d, e);
    lemma_lower_bound_exists(t, e.start);
    let l = lower_bound(t, e.start);
    assert(t.contains(t[l]));
    lemma_timed_out_exact(t, now);
}

/// The start keys strictly increase along the sequence.
pub open spec fn starts_sorted(s: Seq<RangeView>) -> bool {
    forall|i: int, j: int| 0 <= i < j < s.len() ==> lex_lt(#[trigger] s[i].start, #[trigger] s[j].start)
}

/// Keeping some ranges keeps the start keys sorted.
proof fn lemma_filter_sorted(s: Seq<RangeView>, p: spec_fn(RangeView) -> bool)
    requires
        starts_sorted(s),
    ensures
        starts_sorted(s.filter(p)),
    decreases s.len(),
{
    reveal(Seq::filter);
    if s.len() > 0 {
        let t = s.drop_last();
        assert(starts_sorted(t));
        lemma_filter_sorted(t, p);
        let g = t.filter(p);
        if p(s.last()) {
            let f = g.push(s.last());
            assert forall|i: int, j: int| 0 <= i < j < f.len() implies lex_lt(#[trigger] f[i].start, #[trigger] f[j].start) by {
                if j == f.len() - 1 {
                    lemma_filter_member(t, p, g[i]);
                    assert(g.contains(g[i]));
                    let k = choose|k: int| 0 <= k < t.len() && t[k] == g[i];
                    assert(s[k] == g[i]);
                } else {
                    assert(f[i] == g[i] && f[j] == g[j]);
                }
            }
        }
    }
}

/// Each timed-out range is a pending range stored under its start key, and
/// their start keys strictly increase.
pub proof fn lemma_timed_out_stored(s: Seq<RangeView>, now: u64)
    requires
        ranges_wf(s),
    ensures
        starts_sorted(timed_out_ranges(s, now)),
        forall|i: int| 0 <= i < timed_out_ranges(s, now).len() ==> has_key(s, #[trigger] timed_out_ranges(s, now)[i].start),
{
    let t = timed_out_ranges(s, now);
    lemma_filter_sorted(s, timeout_reached(now));
    assert forall|i: int| 0 <= i < t.len() implies has_key(s, #[trigger] t[i].start) by {
        lemma_filter_member(s, timeout_reached(now), t[i]);
        assert(t.contains(t[i]));
        let k = choose|k: int| 0 <= k < s.len() && s[k] == t[i];
        lemma_key_index(s, k);
    }
}

/// Keeping by a stricter test after a looser one is keeping by the stricter.
proof fn lemma_filter_nested(s: Seq<RangeView>, p: spec_fn(RangeView) -> bool, q: spec_fn(RangeView) -> bool)
    requires
        forall|e: RangeView| #[trigger] p(e) ==> q(e),
    ensures
        s.filter(q).filter(p) == s.filter(p),
    decreases s.len(),
{
    reveal(Seq::filter);
    if s.len() > 0 {
        let t = s.drop_last();
        lemma_filter_nested(t, p, q);
        if q(s.last()) {
            let g = t.filter(q);
            assert(g.push(s.last()).drop_last() =~= g);
            assert(g.push(s.last()).last() == s.last());
        }
    }
}

/// A range that has timed out stays timed out: the ranges timed out at an
/// instant are those timed out at any later instant, kept when their timeout
/// is not after the earlier instant, in the same order.
pub proof fn lemma_timed_out_monotone(s: Seq<RangeView>, now1: u64, now2: u64)
    requires
        now1 <= now2,
    ensures
        timed_out_ranges(s, now1) == timed_out_ranges(timed_out_ranges(s, now2), now1),
        forall|e: RangeView| #[trigger] timed_out_ranges(s, now1).contains(e) ==> timed_out_ranges(s, now2).contains(e),
{
    assert forall|e: RangeView| #[trigger] timeout_reached(now1)(e) implies timeout_reached(now2)(e) by {
    }
    lemma_filter_nested(s, timeout_reached(now1), timeout_reached(now2));
    lemma_timed_out_exact(s, now1);
    lemma_timed_out_exact(s, now2);
}

impl PendingDeleteRanges {
    pub open spec fn wf(&self) -> bool {
        ranges_wf(self@)
    }

    proof fn lemma_view_index(&self, i: int)
        requires
            0 <= i < self.ranges@.len(),
        ensures
            self@[i] == entry_view(self.ranges@[i]),
            self@.len() == self.ranges@.len(),
    {
    }

    /// No pending range.
    pub fn new() -> (r: Self)
        ensures
            r.wf(),
            r@ == Seq::<RangeView>::empty(),
    {
        let r = PendingDeleteRanges { ranges: Vec::new() };
        assert(r@ =~= Seq::<RangeView>::empty());
        r
    }

    /// Number of ranges whose start key sorts before `key`.
    fn lower_bound_index(&self, key: &[u8]) -> (l: usize)
        requires
            self.wf(),
        ensures
            is_lower_bound(self@, key@, l as int),
            l == lower_bound(self@, key@),
    {
        let ghost s = self@;
        let mut lo: usize = 0;
        let mut hi: usize = self.ranges.len();
        while lo < hi
            invariant
                s == self@,
                ranges_wf(s),
                s.len() == self.ranges@.len(),
                lo <= hi <= s.len(),
                forall|i: int| 0 <= i < lo ==> lex_lt(#[trigger] s[i].start, key@),
                forall|i: int| hi <= i < s.len() ==> !lex_lt(#[trigger] s[i].start, key@),
            decreases hi - lo,
        {
            let mid = lo + (hi - lo) / 2;
            proof {
                self.lemma_view_index(mid as int);
            }
            match compare_keys(self.ranges[mid].0.as_slice(), key) {
                KeyOrder::Less => {
                    assert forall|i: int| 0 <= i < mid + 1 implies lex_lt(#[trigger] s[i].start, key@) by {
                        if i < mid {
                            lemma_lex_lt_transitive(s[i].start, s[mid as int].start, key@);
                        }
                    }
                    lo = mid + 1;
                },
                _ => {
                    assert forall|i: int| mid <= i < s.len() implies !lex_lt(#[trigger] s[i].start, key@) by {
                        if i > mid && lex_lt(s[i].start, key@) {
                            lemma_lex_lt_transitive(s[mid as int].start, s[i].start, key@);
                        }
                    }
                    hi = mid;
                },
            }
        }
        proof {
            lemma_lower_bound_unique(s, key@, lo as int);
        }
        lo
    }

    /// The range at index `i` holds no key.
    fn entry_is_empty(&self, i: usize) -> (r: bool)
        requires
            self.wf(),
            i < self@.len(),
        ensures
            r == !non_empty(self@[i as int]),
    {
        proof {
            self.lemma_view_index(i as int);
        }
        let e = &self.ranges[i];
        compare_keys(e.0.as_slice(), e.1.end_key.as_slice()) != KeyOrder::Less
    }

    /// Where the ranges overlapping `[start_key, end_key)` lie: the index of
    /// the range holding `start_key` strictly inside, if it is reported, and
    /// the bounds of the block of ranges starting in `[start_key, end_key)`.
    fn overlap_parts(&self, start_key: &[u8], end_key: &[u8]) -> (r: (Option<usize>, usize, usize))
        requires
            self.wf(),
            lex_le(start_key@, end_key@),
        ensures
            r.1 == lower_bound(self@, start_key@),
            r.2 == lower_bound(self@, end_key@),
            r.1 <= r.2 <= self@.len(),
            r.0 is Some <==> reports_container(self@, start_key@, end_key@),
            r.0 matches Some(p) ==> p == container(self@, start_key@) && p < r.1,
    {
        let ghost s = self@;
        let l = self.lower_bound_index(start_key);
        let h = self.lower_bound_index(end_key);
        proof {
            lemma_lower_bound_monotone(s, start_key@, end_key@);
            lemma_container(s, start_key@);
        }
        if compare_keys(start_key, end_key) != KeyOrder::Less {
            return (None, l, h);
        }
        let mut i = l;
        while i > 0 && self.entry_is_empty(i - 1)
            invariant
                s == self@,
                self.wf(),
                i <= l <= s.len(),
                forall|k: int| i <= k < l ==> !non_empty(#[trigger] s[k]),
            decreases i,
        {
            i = i - 1;
        }
        if i > 0 {
            proof {
                self.lemma_view_index(i - 1);
            }
            if compare_keys(start_key, self.ranges[i - 1].1.end_key.as_slice()) == KeyOrder::Less {
                proof {
                    assert(strictly_inside(s[i - 1], start_key@));
                    assert(has_container(s, start_key@));
                }
                return (Some(i - 1), l, h);
            }
        }
        proof {
            assert forall|p: int| 0 <= p < s.len() implies !strictly_inside(#[trigger] s[p], start_key@) by {
                if strictly_inside(s[p], start_key@) {
                    lemma_lex_lt_transitive(s[p].start, start_key@, s[p].end);
                    if p >= l {
                        assert(!lex_lt(s[p].start, start_key@));
                    } else if p >= i {
                        assert(!non_empty(s[p]));
                    } else if p == i - 1 {
                        lemma_lex_lt_asymmetric(start_key@, s[p].end);
                    } else {
                                                assert(non_empty(s[i - 1]));
                        lemma_lex_le_lt_transitive(s[p].end, s[i - 1].start, start_key@);
                        lemma_lex_lt_asymmetric(start_key@, s[p].end);
                    }
                }
            }
        }
        (None, l, h)
    }

    /// Copies out, in key order, the ranges at indices `lo..hi`.
    fn copy_block(&self, lo: usize, hi: usize) -> (r: Vec<RangeTriple>)
        requires
            lo <= hi <= self@.len(),
        ensures
            triples_view(r@) == ranges_triples(self@.subrange(lo as int, hi as int)),
    {
        let mut r: Vec<RangeTriple> = Vec::new();
        let mut i = lo;
        while i < hi
            invariant
                lo <= i <= hi <= self@.len(),
                self@.len() == self.ranges@.len(),
                triples_view(r@) == ranges_triples(self@.subrange(lo as int, i as int)),
            decreases hi - i,
        {
            proof {
                self.lemma_view_index(i as int);
            }
            let e = &self.ranges[i];
            let t = (e.1.region_id, slice_to_vec(e.0.as_slice()), slice_to_vec(e.1.end_key.as_slice()));
            let ghost before = r@;
            r.push(t);
            proof {
                assert(triples_view(before)
                    =~= ranges_triples(self@.subrange(lo as int, i as int)));
                assert(triples_view(before).len() == i - lo);
                assert(triples_view(r@) =~= ranges_triples(self@.subrange(lo as int, i + 1))) by {
                    assert forall|k: int| 0 <= k < r@.len() implies triples_view(r@)[k]
                        == ranges_triples(self@.subrange(lo as int, i + 1))[k] by {
                        if k < before.len() {
                            assert(r@[k] == before[k]);
                            assert(triples_view(before)[k] == ranges_triples(self@.subrange(lo as int, i as int))[k]);
                            assert(self@.subrange(lo as int, i + 1)[k] == self@.subrange(lo as int, i as int)[k]);
                        } else {
                            assert(r@[k] == t);
                            assert(self@.subrange(lo as int, i + 1)[k] == self@[i as int]);
                        }
                    }
                }
            }
            i = i + 1;
        }
        r
    }

    /// Copies out the ranges reported as overlapping, given where they lie.
    fn copy_overlaps(&self, parts: (Option<usize>, usize, usize), start_key: &[u8], end_key: &[u8]) -> (r: Vec<RangeTriple>)
        requires
            self.wf(),
            lex_le(start_key@, end_key@),
            parts.1 == lower_bound(self@, start_key@),
            parts.2 == lower_bound(self@, end_key@),
            parts.1 <= parts.2 <= self@.len(),
            parts.0 is Some <==> reports_container(self@, start_key@, end_key@),
            parts.0 matches Some(p) ==> p == container(self@, start_key@) && p < parts.1,
        ensures
            triples_view(r@) == ranges_triples(overlap_ranges(self@, start_key@, end_key@)),
    {
        let ghost s = self@;
        let (p, l, h) = parts;
        let mut block = self.copy_block(l, h);
        match p {
            Some(p) => {
                let mut r = self.copy_block(p, p + 1);
                let ghost a = r@;
                let ghost b = block@;
                r.append(&mut block);
                proof {
                    assert(s.subrange(p as int, p + 1) =~= seq![s[p as int]]);
                    assert(triples_view(a + b) =~= triples_view(a) + triples_view(b));
                    assert(ranges_triples(seq![s[p as int]] + s.subrange(l as int, h as int)) =~= ranges_triples(
                        seq![s[p as int]],
                    ) + ranges_triples(s.subrange(l as int, h as int)));
                }
                r
            },
            None => block,
        }
    }

    /// Finds ranges that overlap with `[start_key, end_key)`, in key order.
    /// An empty range `[k, k)` overlaps nothing.
    pub fn find_overlap_ranges(&self, start_key: &[u8], end_key: &[u8]) -> (r: Vec<RangeTriple>)
        requires
            self.wf(),
            lex_le(start_key@, end_key@),
        ensures
            triples_view(r@) == ranges_triples(overlap_ranges(self@, start_key@, end_key@)),
    {
        let parts = self.overlap_parts(start_key, end_key);
        self.copy_overlaps(parts, start_key, end_key)
    }

    /// Takes out and returns, in key order, the ranges that overlap with
    /// `[start_key, end_key)`.
    pub fn drain_overlap_ranges(&mut self, start_key: &[u8], end_key: &[u8]) -> (r: Vec<RangeTriple>)
        requires
            old(self).wf(),
            lex_le(start_key@, end_key@),
        ensures
            final(self).wf(),
            triples_view(r@) == ranges_triples(overlap_ranges(old(self)@, start_key@, end_key@)),
            final(self)@ == drained_ranges(old(self)@, start_key@, end_key@),
    {
        let ghost s = self@;
        let parts = self.overlap_parts(start_key, end_key);
        let r = self.copy_overlaps(parts, start_key, end_key);
        let (p, l, h) = parts;
        let mut tail = self.ranges.split_off(h);
        self.ranges.truncate(l);
        self.ranges.append(&mut tail);
        proof {
            assert(self@ =~= s.subrange(0, l as int) + s.subrange(h as int, s.len() as int));
            lemma_drain_leaves_no_overlap(s, start_key@, end_key@);
        }
        match p {
            Some(p) => {
                let ghost t = self@;
                self.ranges.remove(p);
                proof {
                    assert(self@ =~= t.remove(p as int));
                    assert(self@ =~= drained_ranges(s, start_key@, end_key@));
                }
            },
            None => {
                assert(self@ =~= drained_ranges(s, start_key@, end_key@));
            },
        }
        r
    }

    /// Removes and returns the range stored under `start_key`.
    pub fn remove(&mut self, start_key: &[u8]) -> (r: Option<RangeTriple>)
        requires
            old(self).wf(),
        ensures
            final(self).wf(),
            has_key(old(self)@, start_key@) ==> {
                &&& r is Some
                &&& triple_view(r.unwrap()) == range_triple(old(self)@[lower_bound(old(self)@, start_key@)])
                &&& final(self)@ == old(self)@.remove(lower_bound(old(self)@, start_key@))
            },
            !has_key(old(self)@, start_key@) ==> r is None && final(self)@ == old(self)@,
    {
        let ghost s = self@;
        let l = self.lower_bound_index(start_key);
        if l < self.ranges.len() {
            proof {
                self.lemma_view_index(l as int);
            }
            if compare_keys(self.ranges[l].0.as_slice(), start_key) == KeyOrder::Equal {
                let e = self.ranges.remove(l);
                proof {
                    assert(self@ =~= s.remove(l as int));
                    assert(s.remove(l as int) =~= s.subrange(0, l as int) + s.subrange(l + 1, s.len() as int));
                    lemma_wf_cut(s, l as int, l + 1);
                }
                return Some((e.1.region_id, e.0, e.1.end_key));
            }
        }
        None
    }

    /// Number of pending ranges.
    pub fn len(&self) -> (n: usize)
        ensures
            n == self@.len(),
    {
        self.ranges.len()
    }


    /// Inserts a new range waiting to be deleted.  The range must not overlap
    /// any pending range: call `drain_overlap_ranges` first.
    pub fn insert(&mut self, region_id: u64, start_key: &[u8], end_key: &[u8], timeout: u64)
        requires
            old(self).wf(),
            lex_le(start_key@, end_key@),
            overlap_ranges(old(self)@, start_key@, end_key@).len() == 0,
        ensures
            final(self).wf(),
            final(self)@ == inserted_ranges(
                old(self)@,
                RangeView { start: start_key@, region_id, end: end_key@, timeout },
            ),
    {
        let ghost s = self@;
        let ghost e = RangeView { start: start_key@, region_id, end: end_key@, timeout };
        let l = self.lower_bound_index(start_key);
        let entry = (
            slice_to_vec(start_key),
            StalePeerInfo { region_id, end_key: slice_to_vec(end_key), timeout },
        );
        proof {
            lemma_insert_wf(s, e);
        }
        let mut same_key = false;
        if l < self.ranges.len() {
            proof {
                self.lemma_view_index(l as int);
            }
            same_key = compare_keys(self.ranges[l].0.as_slice(), start_key) == KeyOrder::Equal;
        }
        if same_key {
            self.ranges.set(l, entry);
            assert(self@ =~= s.update(l as int, e));
        } else {
            self.ranges.insert(l, entry);
            assert(self@ =~= s.insert(l as int, e));
        }
    }

    /// All ranges whose timeout is not after `now`, in key order.
    pub fn timeout_ranges(&self, now: u64) -> (r: Vec<RangeTriple>)
        ensures
            triples_view(r@) == ranges_triples(timed_out_ranges(self@, now)),
    {
        let ghost s = self@;
        let ghost pred = timeout_reached(now);
        let mut r: Vec<RangeTriple> = Vec::new();
        let mut i: usize = 0;
        assert(s.take(0) =~= Seq::<RangeView>::empty());
        proof {
            reveal(Seq::filter);
        }
        assert(triples_view(r@) =~= ranges_triples(s.take(0).filter(pred)));
        while i < self.ranges.len()
            invariant
                s == self@,
                pred == timeout_reached(now),
                s.len() == self.ranges@.len(),
                i <= s.len(),
                triples_view(r@) == ranges_triples(s.take(i as int).filter(pred)),
            decreases s.len() - i,
        {
            proof {
                self.lemma_view_index(i as int);
                reveal(Seq::filter);
                assert(s.take(i + 1).drop_last() =~= s.take(i as int));
            }
            let e = &self.ranges[i];
            let ghost before = r@;
            if e.1.timeout <= now {
                let t = (e.1.region_id, slice_to_vec(e.0.as_slice()), slice_to_vec(e.1.end_key.as_slice()));
                r.push(t);
                proof {
                    let f = s.take(i as int).filter(pred);
                    assert(triples_view(before).len() == ranges_triples(f).len());
                    let t1 = s.take(i + 1);
                    reveal(Seq::filter);
                    assert(t1.drop_last() =~= s.take(i as int));
                    assert(t1.last() == s[i as int]);
                    assert(s[i as int].timeout == e.1.timeout);
                    assert(s[i as int].timeout <= now);
                    assert(pred(s[i as int]));
                    assert(pred(t1.last()));
                    assert(t1.filter(pred) == f.push(s[i as int]));
                    assert(triples_view(r@) =~= ranges_triples(f.push(s[i as int]))) by {
                        assert forall|k: int| 0 <= k < r@.len() implies triples_view(r@)[k]
                            == ranges_triples(f.push(s[i as int]))[k] by {
                            if k < before.len() {
                                assert(r@[k] == before[k]);
                                assert(triples_view(before)[k] == ranges_triples(f)[k]);
                                assert(f.push(s[i as int])[k] == f[k]);
                            } else {
                                assert(r@[k] == t);
                                assert(f.push(s[i as int])[k] == s[i as int]);
                            }
                        }
                    }
                }
            } else {
                proof {
                    let t1 = s.take(i + 1);
                    reveal(Seq::filter);
                    assert(t1.drop_last() =~= s.take(i as int));
                    assert(t1.last() == s[i as int]);
                    assert(!pred(t1.last()));
                }
                assert(s.take(i + 1).filter(pred) == s.take(i as int).filter(pred));
            }
            i = i + 1;
        }
        assert(s.take(s.len() as int) =~= s);
        r
    }

}

impl Default for PendingDeleteRanges {
    fn default() -> (r: Self)
        ensures
            r.wf(),
            r@ == Seq::<RangeView>::empty(),
    {
        PendingDeleteRanges::new()
    }
}

impl Clone for PendingDeleteRanges {
    fn clone(&self) -> (r: Self)
        ensures
            r@ == self@,
    {
        let mut ranges: Vec<(Vec<u8>, StalePeerInfo)> = Vec::with_capacity(self.ranges.len());
        let mut i: usize = 0;
        while i < self.ranges.len()
            invariant
                i <= self.ranges@.len(),
                ranges@.len() == i,
                forall|j: int| 0 <= j < i ==> entry_view(#[trigger] ranges@[j]) == entry_view(self.ranges@[j]),
            decreases self.ranges@.len() - i,
        {
            let e = &self.ranges[i];
            ranges.push((
                slice_to_vec(e.0.as_slice()),
                StalePeerInfo { region_id: e.1.region_id, end_key: slice_to_vec(e.1.end_key.as_slice()), timeout: e.1.timeout },
            ));
            i = i + 1;
        }
        let r = PendingDeleteRanges { ranges };
        assert(r@ =~= self@);
        r
    }
}

} // verus!
