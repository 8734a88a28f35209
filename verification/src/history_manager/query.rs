//! Tier-transparent range queries over the price history.

use vstd::prelude::*;
use crate::bucket_series::{sorted_idx, sorted_ws};
use super::{archive_view, live_view, series_of, HistoryView, PriceHistoryManager};
use crate::keyed::{distinct_keys, find_key, to_map};
use crate::price_history::{
    bucket_secs, granularity_of, ArchivedBucket, PriceBucket, PriceHistoryError, PriceQueryResult, TimeBucket,
};

verus! {

/// Live buckets whose index lies in `[lo, hi]`, in order.
pub open spec fn live_range(s: Seq<PriceBucket>, lo: u64, hi: u64) -> Seq<PriceBucket> {
    s.filter(|b: PriceBucket| lo <= b.bucket_index && b.bucket_index <= hi)
}

/// Archived buckets whose window starts in `[start, end]`, in order.
pub open spec fn archive_range(s: Seq<ArchivedBucket>, start: u64, end: u64) -> Seq<ArchivedBucket> {
    s.filter(|a: ArchivedBucket| start <= a.window_start && a.window_start <= end)
}

/// An archived bucket presented as a price bucket of granularity `bt`.
pub open spec fn as_bucket(a: ArchivedBucket, bt: TimeBucket) -> PriceBucket {
    PriceBucket {
        bucket_type: bt,
        bucket_index: a.window_start / bucket_secs(bt),
        open: a.open,
        high: a.high,
        low: a.low,
        close: a.close,
        volume: a.volume,
        entry_count: a.raw_entry_count,
        first_timestamp: a.window_start,
        last_timestamp: if a.window_end >= 1 { (a.window_end - 1) as u64 } else { 0 },
    }
}

/// Buckets in strictly increasing first-timestamp order.
pub open spec fn sorted_first(s: Seq<PriceBucket>) -> bool {
    forall|i: int, j: int| 0 <= i < j < s.len() ==> s[i].first_timestamp < s[j].first_timestamp
}

/// `p` splits a time-ordered sequence into the buckets starting before `t` and the rest.
pub open spec fn is_insert_pos(acc: Seq<PriceBucket>, t: u64, p: int) -> bool {
    &&& 0 <= p <= acc.len()
    &&& forall|i: int| 0 <= i < p ==> acc[i].first_timestamp < t
    &&& forall|i: int| p <= i < acc.len() ==> acc[i].first_timestamp >= t
}

/// Position at which a bucket starting at `t` belongs in a time-ordered sequence.
pub open spec fn insert_pos(acc: Seq<PriceBucket>, t: u64) -> int {
    choose|p: int| #[trigger] is_insert_pos(acc, t, p)
}

/// Add a bucket to a time-ordered sequence unless one with the same start is there.
pub open spec fn insert_unique(acc: Seq<PriceBucket>, b: PriceBucket) -> Seq<PriceBucket> {
    if exists|i: int| 0 <= i < acc.len() && acc[i].first_timestamp == b.first_timestamp {
        acc
    } else {
        acc.insert(insert_pos(acc, b.first_timestamp), b)
    }
}

/// Buckets ordered by start time, keeping the first bucket of each start time:
/// a stable sort by start time followed by removal of later duplicates.
pub open spec fn merge_by_time(items: Seq<PriceBucket>) -> Seq<PriceBucket>
    decreases items.len(),
{
    if items.len() == 0 {
        Seq::empty()
    } else {
        insert_unique(merge_by_time(items.drop_last()), items.last())
    }
}

/// The page of `s` that skips `offset` items and keeps at most `limit`.
pub open spec fn page(s: Seq<PriceBucket>, offset: int, limit: int) -> Seq<PriceBucket> {
    let o = if offset < s.len() { offset } else { s.len() as int };
    let rest = s.skip(o);
    if limit < rest.len() {
        rest.take(limit)
    } else {
        rest
    }
}

/// The archive series of `asset` (empty when there is none).
pub open spec fn archive_series(m: Map<Seq<char>, Seq<ArchivedBucket>>, asset: Seq<char>) -> Seq<ArchivedBucket> {
    if m.dom().contains(asset) {
        m[asset]
    } else {
        Seq::empty()
    }
}

/// Every bucket of the three tiers that a range query considers, tier by tier.
pub open spec fn history_candidates(
    v: HistoryView,
    asset: Seq<char>,
    bt: TimeBucket,
    start: u64,
    end: u64,
) -> Seq<PriceBucket> {
    let d = bucket_secs(bt);
    live_range(series_of(v, bt, asset), start / d, end / d) + archive_range(
        archive_series(v.medium, asset),
        start,
        end,
    ).map_values(|a: ArchivedBucket| as_bucket(a, TimeBucket::OneHour)) + archive_range(
        archive_series(v.historical, asset),
        start,
        end,
    ).map_values(|a: ArchivedBucket| as_bucket(a, TimeBucket::OneDay))
}

/// The buckets a range query returns before pagination.
pub open spec fn history_in_range(
    v: HistoryView,
    asset: Seq<char>,
    bt: TimeBucket,
    start: u64,
    end: u64,
) -> Seq<PriceBucket> {
    merge_by_time(history_candidates(v, asset, bt, start, end))
}

/// Append the live buckets of `s` with index in `[lo, hi]` to `out`.
pub(crate) fn append_live_range(out: &mut Vec<PriceBucket>, s: &Vec<PriceBucket>, lo: u64, hi: u64)
    ensures
        final(out)@ == old(out)@ + live_range(s@, lo, hi),
{
    let ghost o0 = out@;
    let ghost pred = |b: PriceBucket| lo <= b.bucket_index && b.bucket_index <= hi;
    let mut i: usize = 0;
    while i < s.len()
        invariant
            i <= s@.len(),
            pred == (|b: PriceBucket| lo <= b.bucket_index && b.bucket_index <= hi),
            out@ == o0 + s@.take(i as int).filter(pred),
        decreases s@.len() - i,
    {
        let b = s[i];
        proof {
            reveal_with_fuel(Seq::<_>::filter, 1);
            assert(s@.take(i + 1).drop_last() =~= s@.take(i as int));
            assert(s@.take(i + 1).last() == b);
        }
        if lo <= b.bucket_index && b.bucket_index <= hi {
            out.push(b);
            proof {
                assert(pred(b));
                assert(s@.take(i + 1).filter(pred) == s@.take(i as int).filter(pred).push(b));
                assert(out@ =~= o0 + s@.take(i + 1).filter(pred));
            }
        } else {
            proof {
                assert(!pred(b));
                assert(s@.take(i + 1).filter(pred) == s@.take(i as int).filter(pred));
            }
        }
        i = i + 1;
    }
    proof {
        assert(s@.take(s@.len() as int) =~= s@);
    }
}

/// Append the archived buckets of `s` starting in `[start, end]`, presented at
/// granularity `bt`, to `out`.
fn append_archive_range(out: &mut Vec<PriceBucket>, s: &Vec<ArchivedBucket>, start: u64, end: u64, bt: TimeBucket)
    ensures
        final(out)@ == old(out)@ + archive_range(s@, start, end).map_values(|a: ArchivedBucket| as_bucket(a, bt)),
{
    let ghost o0 = out@;
    let ghost pred = |a: ArchivedBucket| start <= a.window_start && a.window_start <= end;
    let ghost f = |a: ArchivedBucket| as_bucket(a, bt);
    let d = bt.duration();
    let mut i: usize = 0;
    while i < s.len()
        invariant
            i <= s@.len(),
            d == bucket_secs(bt),
            pred == (|a: ArchivedBucket| start <= a.window_start && a.window_start <= end),
            f == (|a: ArchivedBucket| as_bucket(a, bt)),
            out@ == o0 + s@.take(i as int).filter(pred).map_values(f),
        decreases s@.len() - i,
    {
        let a = &s[i];
        proof {
            reveal_with_fuel(Seq::<_>::filter, 1);
            assert(s@.take(i + 1).drop_last() =~= s@.take(i as int));
            assert(s@.take(i + 1).last() == *a);
        }
        if start <= a.window_start && a.window_start <= end {
            let last: u64 = if a.window_end >= 1 { a.window_end - 1 } else { 0 };
            let b = PriceBucket {
                bucket_type: bt,
                bucket_index: a.window_start / d,
                open: a.open,
                high: a.high,
                low: a.low,
                close: a.close,
                volume: a.volume,
                entry_count: a.raw_entry_count,
                first_timestamp: a.window_start,
                last_timestamp: last,
            };
            out.push(b);
            proof {
                assert(pred(*a));
                assert(b == as_bucket(*a, bt));
                assert(b == f(*a));
                assert(s@.take(i + 1).filter(pred) == s@.take(i as int).filter(pred).push(*a));
                assert(s@.take(i + 1).filter(pred).map_values(f) =~= s@.take(i as int).filter(pred).map_values(f).push(b));
                assert(out@ =~= o0 + s@.take(i + 1).filter(pred).map_values(f));
            }
        } else {
            proof {
                assert(!pred(*a));
                assert(s@.take(i + 1).filter(pred) == s@.take(i as int).filter(pred));
            }
        }
        i = i + 1;
    }
    proof {
        assert(s@.take(s@.len() as int) =~= s@);
    }
}

proof fn lemma_insert_pos(acc: Seq<PriceBucket>, t: u64, p: int)
    requires
        0 <= p <= acc.len(),
        forall|i: int| 0 <= i < p ==> acc[i].first_timestamp < t,
        forall|i: int| p <= i < acc.len() ==> acc[i].first_timestamp >= t,
    ensures
        insert_pos(acc, t) == p,
{
    assert(is_insert_pos(acc, t, p));
    let q = insert_pos(acc, t);
    assert(is_insert_pos(acc, t, q));
    if q < p {
        assert(acc[q].first_timestamp < t);
    } else if p < q {
        assert(acc[p].first_timestamp < t);
    }
}

/// Merge candidate buckets by start time, keeping the first of each start time.
fn merge_buckets_by_time(items: &Vec<PriceBucket>) -> (r: Vec<PriceBucket>)
    ensures
        r@ == merge_by_time(items@),
        sorted_first(r@),
{
    let mut acc: Vec<PriceBucket> = Vec::new();
    let mut i: usize = 0;
    while i < items.len()
        invariant
            i <= items@.len(),
            acc@ == merge_by_time(items@.take(i as int)),
            sorted_first(acc@),
        decreases items@.len() - i,
    {
        let b = items[i];
        let t = b.first_timestamp;
        proof {
            assert(items@.take(i + 1).drop_last() =~= items@.take(i as int));
            assert(items@.take(i + 1).last() == b);
        }
        let mut p: usize = 0;
        while p < acc.len() && acc[p].first_timestamp < t
            invariant
                p <= acc@.len(),
                forall|j: int| 0 <= j < p ==> acc@[j].first_timestamp < t,
            decreases acc@.len() - p,
        {
            p = p + 1;
        }
        proof {
            assert forall|j: int| p <= j < acc@.len() implies acc@[j].first_timestamp >= t by {
                if j > p {
                    assert(acc@[p as int].first_timestamp < acc@[j].first_timestamp);
                }
            }
            lemma_insert_pos(acc@, t, p as int);
        }
        if p < acc.len() && acc[p].first_timestamp == t {
            proof {
                assert(acc@[p as int].first_timestamp == b.first_timestamp);
            }
        } else {
            proof {
                assert(!exists|j: int| 0 <= j < acc@.len() && acc@[j].first_timestamp == b.first_timestamp) by {
                    if exists|j: int| 0 <= j < acc@.len() && acc@[j].first_timestamp == b.first_timestamp {
                        let j = choose|j: int| 0 <= j < acc@.len() && acc@[j].first_timestamp == b.first_timestamp;
                        if j > p {
                            assert(acc@[p as int].first_timestamp < acc@[j].first_timestamp);
                        }
                    }
                }
            }
            let ghost a0 = acc@;
            acc.insert(p, b);
            proof {
                assert forall|x: int, y: int| 0 <= x < y < acc@.len() implies acc@[x].first_timestamp
                    < acc@[y].first_timestamp by {
                    if y < p {
                    } else if y == p {
                    } else if x < p {
                        assert(acc@[y] == a0[y - 1]);
                        assert(a0[y - 1].first_timestamp >= t);
                    } else if x == p {
                        assert(acc@[y] == a0[y - 1]);
                        assert(a0[y - 1].first_timestamp >= t);
                    } else {
                        assert(acc@[x] == a0[x - 1]);
                        assert(acc@[y] == a0[y - 1]);
                    }
                }
            }
        }
        i = i + 1;
    }
    proof {
        assert(items@.take(items@.len() as int) =~= items@);
    }
    acc
}

/// A page of a time-ordered sequence is time-ordered.
pub proof fn lemma_page_sorted(s: Seq<PriceBucket>, offset: int, limit: int)
    requires
        sorted_first(s),
        0 <= offset,
        0 <= limit,
    ensures
        sorted_first(page(s, offset, limit)),
{
    let o = if offset < s.len() { offset } else { s.len() as int };
    let rest = s.skip(o);
    assert forall|i: int, j: int| 0 <= i < j < rest.len() implies rest[i].first_timestamp < rest[j].first_timestamp by {
        assert(rest[i] == s[i + o]);
        assert(rest[j] == s[j + o]);
    }
}

/// The page that skips `offset` buckets and keeps at most `limit`.
fn paginate(s: Vec<PriceBucket>, offset: usize, limit: usize) -> (r: Vec<PriceBucket>)
    ensures
        r@ == page(s@, offset as int, limit as int),
{
    let o = if offset < s.len() { offset } else { s.len() };
    let mut out: Vec<PriceBucket> = Vec::new();
    let mut i: usize = o;
    while i < s.len() && out.len() < limit
        invariant
            o <= i <= s@.len(),
            o == (if offset < s@.len() { offset as int } else { s@.len() as int }),
            out@ == s@.subrange(o as int, i as int),
            out@.len() == i - o,
            out@.len() <= limit,
        decreases s@.len() - i,
    {
        out.push(s[i]);
        i = i + 1;
    }
    proof {
        let rest = s@.skip(o as int);
        if (limit as int) < rest.len() {
            assert(out@ =~= rest.take(limit as int));
        } else {
            assert(out@ =~= rest);
        }
    }
    out
}

impl PriceHistoryManager {
    /// Price buckets of an asset in `[start_time, end_time]`, merged from the live
    /// store (at granularity `bucket_type`), the hourly archive and the daily archive,
    /// in ascending start-time order with one bucket per start time (live data first,
    /// then hourly, then daily), then paginated by `offset` and `limit`.
    pub fn get_price_history(
        &self,
        asset_id: &str,
        bucket_type: TimeBucket,
        start_time: u64,
        end_time: u64,
        limit: Option<usize>,
        offset: Option<usize>,
    ) -> (r: Result<Vec<PriceBucket>, PriceHistoryError>)
        requires
            self.wf(),
        ensures
            r matches Ok(v) && v@ == page(
                history_in_range(self@, asset_id@, bucket_type, start_time, end_time),
                match offset { Some(o) => o as int, None => 0 },
                match limit { Some(l) => l as int, None => usize::MAX as int },
            ),
            r matches Ok(v) && sorted_first(v@),
    {
        let mut candidates: Vec<PriceBucket> = Vec::new();
        let d = bucket_type.duration();
        let ghost v = self@;
        let store = self.store_ref(bucket_type);
        match find_key(store, asset_id) {
            Some(i) => {
                append_live_range(&mut candidates, &store[i].1, start_time / d, end_time / d);
                proof {
                    self.lemma_store_ref(bucket_type);
                    assert(series_of(v, bucket_type, asset_id@) == store@[i as int].1@);
                }
            },
            None => {
                proof {
                    self.lemma_store_ref(bucket_type);
                    assert(live_range(series_of(v, bucket_type, asset_id@), start_time / d, end_time / d) =~= Seq::<PriceBucket>::empty());
                    assert(candidates@ =~= Seq::<PriceBucket>::empty() + live_range(series_of(v, bucket_type, asset_id@), start_time / d, end_time / d));
                }
            },
        }
        let ghost c1 = candidates@;
        match find_key(&self.medium_archive, asset_id) {
            Some(i) => {
                append_archive_range(&mut candidates, &self.medium_archive[i].1, start_time, end_time, TimeBucket::OneHour);
                proof {
                    assert(archive_series(v.medium, asset_id@) == self.medium_archive@[i as int].1@);
                }
            },
            None => {
                proof {
                    assert(archive_range(archive_series(v.medium, asset_id@), start_time, end_time) =~= Seq::<ArchivedBucket>::empty());
                    assert(candidates@ =~= c1 + archive_range(archive_series(v.medium, asset_id@), start_time, end_time).map_values(|a: ArchivedBucket| as_bucket(a, TimeBucket::OneHour)));
                }
            },
        }
        let ghost c2 = candidates@;
        match find_key(&self.historical_archive, asset_id) {
            Some(i) => {
                append_archive_range(&mut candidates, &self.historical_archive[i].1, start_time, end_time, TimeBucket::OneDay);
                proof {
                    assert(archive_series(v.historical, asset_id@) == self.historical_archive@[i as int].1@);
                }
            },
            None => {
                proof {
                    assert(archive_range(archive_series(v.historical, asset_id@), start_time, end_time) =~= Seq::<ArchivedBucket>::empty());
                    assert(candidates@ =~= c2 + archive_range(archive_series(v.historical, asset_id@), start_time, end_time).map_values(|a: ArchivedBucket| as_bucket(a, TimeBucket::OneDay)));
                }
            },
        }
        assert(candidates@ =~= history_candidates(v, asset_id@, bucket_type, start_time, end_time));
        let merged = merge_buckets_by_time(&candidates);
        let off = match offset {
            Some(o) => o,
            None => 0,
        };
        let lim = match limit {
            Some(l) => l,
            None => usize::MAX,
        };
        proof {
            lemma_page_sorted(merged@, off as int, lim as int);
        }
        Ok(paginate(merged, off, lim))
    }

    /// The live store of one granularity.
    pub(crate) fn store_ref(&self, bt: TimeBucket) -> (r: &Vec<(String, Vec<PriceBucket>)>)
        requires
            self.wf(),
        ensures
            r@ == self.store_of(bt),
            distinct_keys(r@),
            live_view(r@) == self@.live[bt],
    {
        match bt {
            TimeBucket::OneMinute => &self.live_1m,
            TimeBucket::FiveMinute => &self.live_5m,
            TimeBucket::FifteenMinute => &self.live_15m,
            TimeBucket::OneHour => &self.live_1h,
            TimeBucket::SixHour => &self.live_6h,
            TimeBucket::OneDay => &self.live_1d,
        }
    }

    proof fn lemma_store_ref(&self, bt: TimeBucket)
        ensures
            self@.live[bt] == live_view(self.store_of(bt)),
    {
    }
}

/// Sum of the closing prices of a sequence of buckets.
pub open spec fn sum_close(s: Seq<PriceBucket>) -> int
    decreases s.len(),
{
    if s.len() == 0 {
        0
    } else {
        sum_close(s.drop_last()) + s.last().close
    }
}

/// Mean closing price of a sequence of buckets (0 when empty).
pub open spec fn mean_close(s: Seq<PriceBucket>) -> int {
    if s.len() == 0 {
        0
    } else {
        sum_close(s) / (s.len() as int)
    }
}

pub(crate) proof fn lemma_sum_close_bound(s: Seq<PriceBucket>)
    ensures
        0 <= sum_close(s) <= s.len() * (u64::MAX as int),
        s.len() > 0 ==> sum_close(s) / (s.len() as int) <= u64::MAX,
    decreases s.len(),
{
    if s.len() > 0 {
        lemma_sum_close_bound(s.drop_last());
        assert(sum_close(s) <= s.len() * (u64::MAX as int)) by (nonlinear_arith)
            requires
                sum_close(s) == sum_close(s.drop_last()) + s.last().close,
                sum_close(s.drop_last()) <= (s.len() - 1) * (u64::MAX as int),
                s.last().close <= u64::MAX;
        assert(sum_close(s) / (s.len() as int) <= u64::MAX) by (nonlinear_arith)
            requires sum_close(s) <= s.len() * (u64::MAX as int), s.len() > 0, sum_close(s) >= 0;
    }
}

/// Sum of the closing prices, computed in 128 bits.
pub(crate) fn sum_closes(s: &Vec<PriceBucket>) -> (r: u128)
    ensures
        r == sum_close(s@),
{
    let mut sum: u128 = 0;
    let mut i: usize = 0;
    while i < s.len()
        invariant
            i <= s@.len(),
            sum == sum_close(s@.take(i as int)),
        decreases s@.len() - i,
    {
        proof {
            assert(s@.take(i + 1).drop_last() =~= s@.take(i as int));
            lemma_sum_close_bound(s@.take(i + 1));
            assert(s@.take(i + 1).len() <= usize::MAX);
            assert((i + 1) * (u64::MAX as int) <= u128::MAX) by (nonlinear_arith)
                requires i + 1 <= usize::MAX;
        }
        sum = sum + s[i].close as u128;
        i = i + 1;
    }
    proof {
        assert(s@.take(s@.len() as int) =~= s@);
    }
    sum
}

/// Mean closing price, 0 for an empty sequence.
pub(crate) fn mean_closes(s: &Vec<PriceBucket>) -> (r: u64)
    ensures
        r == mean_close(s@),
{
    if s.len() == 0 {
        return 0;
    }
    let sum = sum_closes(s);
    proof {
        lemma_sum_close_bound(s@);
    }
    (sum / (s.len() as u128)) as u64
}

/// Live buckets of `asset` at granularity `bt` in `[start, end]`.
pub open spec fn live_count(v: HistoryView, asset: Seq<char>, bt: TimeBucket, start: u64, end: u64) -> int {
    live_range(v.live[bt][asset], start / bucket_secs(bt), end / bucket_secs(bt)).len() as int
}

/// The outcome of a historical price query.
pub open spec fn query_outcome(
    v: HistoryView,
    asset: Seq<char>,
    start: u64,
    end: u64,
    granularity: Seq<char>,
    limit: Option<usize>,
    offset: Option<usize>,
    r: Result<PriceQueryResult, PriceHistoryError>,
) -> bool {
    match granularity_of(granularity) {
        None => r matches Err(PriceHistoryError::InvalidGranularity(g)) && g@ == granularity,
        Some(bt) => if !v.live[bt].dom().contains(asset) {
            r == Err::<PriceQueryResult, PriceHistoryError>(PriceHistoryError::AssetNotFound)
        } else {
            let prices = page(
                history_in_range(v, asset, bt, start, end),
                match offset { Some(o) => o as int, None => 0 },
                match limit { Some(l) => l as int, None => usize::MAX as int },
            );
            let total = live_count(v, asset, bt, start, end);
            let o = match offset { Some(o) => o as int, None => 0 };
            let l = match limit { Some(l) => l as int, None => usize::MAX as int };
            r matches Ok(q) && q.prices@ == prices && q.twap == mean_close(prices) && q.total_count == total
                && q.has_more == (total > o + l)
        },
    }
}

impl PriceHistoryManager {
    /// Number of live buckets of `asset` at granularity `bucket_type` in the range;
    /// `AssetNotFound` when the asset has no live series at that granularity.
    fn count_prices_in_range(&self, asset_id: &str, bucket_type: TimeBucket, start_time: u64, end_time: u64) -> (r: Result<u64, PriceHistoryError>)
        requires
            self.wf(),
        ensures
            !self@.live[bucket_type].dom().contains(asset_id@) ==> r == Err::<u64, PriceHistoryError>(PriceHistoryError::AssetNotFound),
            self@.live[bucket_type].dom().contains(asset_id@) ==> r == Ok::<u64, PriceHistoryError>(live_count(self@, asset_id@, bucket_type, start_time, end_time) as u64)
                && live_count(self@, asset_id@, bucket_type, start_time, end_time) <= u64::MAX,
    {
        let store = self.store_ref(bucket_type);
        match find_key(store, asset_id) {
            None => Err(PriceHistoryError::AssetNotFound),
            Some(i) => {
                let d = bucket_type.duration();
                let mut tmp: Vec<PriceBucket> = Vec::new();
                append_live_range(&mut tmp, &store[i].1, start_time / d, end_time / d);
                proof {
                    assert(tmp@ =~= live_range(self@.live[bucket_type][asset_id@], start_time / d, end_time / d));
                }
                Ok(tmp.len() as u64)
            },
        }
    }

    /// Query historical prices with granularity ("1min", "5min", "15min", "1hr",
    /// "1day"), pagination, the mean closing price of the page and the number of live
    /// buckets in the range.
    pub fn query_historical_prices(
        &self,
        asset_id: &str,
        start_time: u64,
        end_time: u64,
        granularity: &str,
        limit: Option<usize>,
        offset: Option<usize>,
    ) -> (r: Result<PriceQueryResult, PriceHistoryError>)
        requires
            self.wf(),
            (match offset { Some(o) => o as int, None => 0 }) + (match limit { Some(l) => l as int, None => usize::MAX as int }) <= u64::MAX,
        ensures
            query_outcome(self@, asset_id@, start_time, end_time, granularity@, limit, offset, r),
    {
        let bucket_type = match TimeBucket::from_granularity_str(granularity) {
            Ok(b) => b,
            Err(e) => return Err(e),
        };
        let total_count = match self.count_prices_in_range(asset_id, bucket_type, start_time, end_time) {
            Ok(c) => c,
            Err(e) => return Err(e),
        };
        let prices = match self.get_price_history(asset_id, bucket_type, start_time, end_time, limit, offset) {
            Ok(p) => p,
            Err(e) => return Err(e),
        };
        let twap = mean_closes(&prices);
        let l: u64 = match limit {
            Some(l) => l as u64,
            None => usize::MAX as u64,
        };
        let o: u64 = match offset {
            Some(o) => o as u64,
            None => 0,
        };
        let has_more = total_count > o + l;
        Ok(PriceQueryResult { prices, twap, total_count, has_more })
    }
}

} // verus!
