//! Compaction of bucket series into coarser archived buckets.
//!
//! Live one-minute buckets are merged into hourly archived buckets, and hourly
//! archived buckets into daily ones.  Every function here works on one series.

use vstd::prelude::*;
use crate::bucket_series::{archived_at, lemma_archived_at_index, sorted_ws};
use crate::history_manager::query::{lemma_sum_close_bound, sum_close, sum_closes};
use crate::price_history::{ArchiveTier, ArchivedBucket, PriceBucket};

verus! {

/// Buckets of `s` whose index lies below `ci`.
pub open spec fn live_below(s: Seq<PriceBucket>, ci: u64) -> Seq<PriceBucket> {
    s.filter(|b: PriceBucket| b.bucket_index < ci)
}

/// Buckets of `s` whose index is at least `ci`.
pub open spec fn live_kept(s: Seq<PriceBucket>, ci: u64) -> Seq<PriceBucket> {
    s.filter(|b: PriceBucket| b.bucket_index >= ci)
}

/// Archived buckets of `s` whose window starts before `c`.
pub open spec fn archive_below(s: Seq<ArchivedBucket>, c: u64) -> Seq<ArchivedBucket> {
    s.filter(|a: ArchivedBucket| a.window_start < c)
}

/// Archived buckets of `s` whose window starts at or after `c`.
pub open spec fn archive_kept(s: Seq<ArchivedBucket>, c: u64) -> Seq<ArchivedBucket> {
    s.filter(|a: ArchivedBucket| a.window_start >= c)
}

/// Start of the window of `len` seconds that contains `t`.
pub open spec fn window_of(t: u64, len: u64) -> u64 {
    ((t / len) * len) as u64
}

/// The live buckets whose first timestamp falls in the hour starting at `w`.
pub open spec fn hour_group(s: Seq<PriceBucket>, w: u64) -> Seq<PriceBucket> {
    s.filter(|b: PriceBucket| window_of(b.first_timestamp, 3600) == w)
}

/// The archived buckets whose window starts in the day starting at `w`.
pub open spec fn day_group(s: Seq<ArchivedBucket>, w: u64) -> Seq<ArchivedBucket> {
    s.filter(|a: ArchivedBucket| window_of(a.window_start, 86400) == w)
}

/// One of the first `n` buckets of `s` starts in the hour `w`.
pub open spec fn hour_seen(s: Seq<PriceBucket>, n: int, w: u64) -> bool {
    exists|i: int| 0 <= i < n && window_of(s[i].first_timestamp, 3600) == w
}

/// Some bucket of `s` starts in the hour `w`.
pub open spec fn hour_present(s: Seq<PriceBucket>, w: u64) -> bool {
    hour_seen(s, s.len() as int, w)
}

/// One of the first `n` archived buckets of `s` starts in the day `w`.
pub open spec fn day_seen(s: Seq<ArchivedBucket>, n: int, w: u64) -> bool {
    exists|i: int| 0 <= i < n && window_of(s[i].window_start, 86400) == w
}

/// Some archived bucket of `s` starts in the day `w`.
pub open spec fn day_present(s: Seq<ArchivedBucket>, w: u64) -> bool {
    day_seen(s, s.len() as int, w)
}

/// Highest `high` of the buckets (0 when there are none).
pub open spec fn max_high(s: Seq<PriceBucket>) -> u64
    decreases s.len(),
{
    if s.len() == 0 {
        0
    } else {
        let m = max_high(s.drop_last());
        if s.last().high > m { s.last().high } else { m }
    }
}

/// Lowest `low` of the buckets (0 when there are none).
pub open spec fn min_low(s: Seq<PriceBucket>) -> u64
    decreases s.len(),
{
    if s.len() == 0 {
        0
    } else if s.len() == 1 {
        s[0].low
    } else {
        let m = min_low(s.drop_last());
        if s.last().low < m { s.last().low } else { m }
    }
}

/// Saturating sum of the volumes.
pub open spec fn sat_volume(s: Seq<PriceBucket>) -> u64
    decreases s.len(),
{
    if s.len() == 0 {
        0
    } else {
        let t = sat_volume(s.drop_last()) + s.last().volume;
        if t > u64::MAX { u64::MAX } else { t as u64 }
    }
}

/// Saturating sum of the entry counts.
pub open spec fn sat_count(s: Seq<PriceBucket>) -> u32
    decreases s.len(),
{
    if s.len() == 0 {
        0
    } else {
        let t = sat_count(s.drop_last()) + s.last().entry_count;
        if t > u32::MAX { u32::MAX } else { t as u32 }
    }
}

/// Highest `high` of the archived buckets (0 when there are none).
pub open spec fn max_high_a(s: Seq<ArchivedBucket>) -> u64
    decreases s.len(),
{
    if s.len() == 0 {
        0
    } else {
        let m = max_high_a(s.drop_last());
        if s.last().high > m { s.last().high } else { m }
    }
}

/// Lowest `low` of the archived buckets (0 when there are none).
pub open spec fn min_low_a(s: Seq<ArchivedBucket>) -> u64
    decreases s.len(),
{
    if s.len() == 0 {
        0
    } else if s.len() == 1 {
        s[0].low
    } else {
        let m = min_low_a(s.drop_last());
        if s.last().low < m { s.last().low } else { m }
    }
}

/// Saturating sum of the archived volumes.
pub open spec fn sat_volume_a(s: Seq<ArchivedBucket>) -> u64
    decreases s.len(),
{
    if s.len() == 0 {
        0
    } else {
        let t = sat_volume_a(s.drop_last()) + s.last().volume;
        if t > u64::MAX { u64::MAX } else { t as u64 }
    }
}

/// Saturating sum of the raw entry counts.
pub open spec fn sat_count_a(s: Seq<ArchivedBucket>) -> u32
    decreases s.len(),
{
    if s.len() == 0 {
        0
    } else {
        let t = sat_count_a(s.drop_last()) + s.last().raw_entry_count;
        if t > u32::MAX { u32::MAX } else { t as u32 }
    }
}

/// Saturating sum of the archived price sums.
pub open spec fn sat_price_sum(s: Seq<ArchivedBucket>) -> u128
    decreases s.len(),
{
    if s.len() == 0 {
        0
    } else {
        let t = sat_price_sum(s.drop_last()) + s.last().price_sum;
        if t > u128::MAX { u128::MAX } else { t as u128 }
    }
}

/// `x` merges the live buckets `g` of `asset` into one archived bucket covering
/// `[ws, we)`: first open, last close, extreme high and low, summed closes, volume
/// and entry count (0 for each of them when `g` is empty).
pub open spec fn merged_live(
    x: ArchivedBucket,
    asset: Seq<char>,
    tier: ArchiveTier,
    ws: u64,
    we: u64,
    g: Seq<PriceBucket>,
) -> bool {
    &&& x.asset_id@ == asset
    &&& x.tier == tier
    &&& x.window_start == ws
    &&& x.window_end == we
    &&& x.open == (if g.len() > 0 { g[0].open } else { 0 })
    &&& x.close == (if g.len() > 0 { g.last().close } else { 0 })
    &&& x.high == max_high(g)
    &&& x.low == min_low(g)
    &&& x.price_sum == sum_close(g)
    &&& x.volume == sat_volume(g)
    &&& x.raw_entry_count == sat_count(g)
}

/// `x` merges the hourly archived buckets `g` of `asset` into one daily bucket
/// covering `[ws, we)`.
pub open spec fn merged_daily(x: ArchivedBucket, asset: Seq<char>, ws: u64, we: u64, g: Seq<ArchivedBucket>) -> bool {
    &&& x.asset_id@ == asset
    &&& x.tier == ArchiveTier::Historical
    &&& x.window_start == ws
    &&& x.window_end == we
    &&& x.open == (if g.len() > 0 { g[0].open } else { 0 })
    &&& x.close == (if g.len() > 0 { g.last().close } else { 0 })
    &&& x.high == max_high_a(g)
    &&& x.low == min_low_a(g)
    &&& x.price_sum == sat_price_sum(g)
    &&& x.volume == sat_volume_a(g)
    &&& x.raw_entry_count == sat_count_a(g)
}

/// The archived hour `x` with the late live bucket `b` folded in: its entries,
/// closes and volume are added (saturating) and its range widened.  Open and close
/// stay, as the archived hour keeps no times to place `b` against them.
pub open spec fn merge_minute(x: ArchivedBucket, b: PriceBucket) -> ArchivedBucket {
    ArchivedBucket {
        high: if b.high > x.high { b.high } else { x.high },
        low: if b.low < x.low { b.low } else { x.low },
        price_sum: if x.price_sum + b.close > u128::MAX { u128::MAX } else { (x.price_sum + b.close) as u128 },
        volume: if x.volume + b.volume > u64::MAX { u64::MAX } else { (x.volume + b.volume) as u64 },
        raw_entry_count: if x.raw_entry_count + b.entry_count > u32::MAX {
            u32::MAX
        } else {
            (x.raw_entry_count + b.entry_count) as u32
        },
        ..x
    }
}

/// The archived hour `x` with the live buckets `g` folded in, in order.
pub open spec fn merged_late(x: ArchivedBucket, g: Seq<PriceBucket>) -> ArchivedBucket
    decreases g.len(),
{
    if g.len() == 0 {
        x
    } else {
        merge_minute(merged_late(x, g.drop_last()), g.last())
    }
}

/// Folding late buckets into an archived hour keeps its asset, tier, window, open
/// and close.
pub proof fn lemma_merged_late_frame(x: ArchivedBucket, g: Seq<PriceBucket>)
    ensures
        merged_late(x, g).asset_id == x.asset_id,
        merged_late(x, g).tier == x.tier,
        merged_late(x, g).window_start == x.window_start,
        merged_late(x, g).window_end == x.window_end,
        merged_late(x, g).open == x.open,
        merged_late(x, g).close == x.close,
    decreases g.len(),
{
    if g.len() > 0 {
        lemma_merged_late_frame(x, g.drop_last());
    }
}

/// An archived hour ending by `cutoff` after the live buckets of `below` in it are
/// folded in; later hours stay as they are.
pub open spec fn hour_after_merge(x: ArchivedBucket, below: Seq<PriceBucket>, cutoff: u64) -> ArchivedBucket {
    if x.window_start + 3600 <= cutoff {
        merged_late(x, hour_group(below, x.window_start))
    } else {
        x
    }
}

/// `new` is the archive `old` with the live buckets of `below` folded into the
/// hour they start in: an hour that `old` has and that ends by `cutoff` takes them
/// in (see [`merged_late`]), and one hourly bucket is added for every hour that
/// some bucket of `below` starts in, that ends by `cutoff`, and that `old` lacks.
pub open spec fn compressed_hourly(
    old: Seq<ArchivedBucket>,
    new: Seq<ArchivedBucket>,
    asset: Seq<char>,
    below: Seq<PriceBucket>,
    cutoff: u64,
) -> bool {
    &&& sorted_ws(new)
    &&& forall|w: u64|
        #![trigger archived_at(old, w)]
        #![trigger archived_at(new, w)]
        archived_at(old, w) is Some ==> archived_at(new, w) == Some(hour_after_merge(archived_at(old, w)->0, below, cutoff))
    &&& forall|w: u64|
        archived_at(old, w) is None && hour_present(below, w) && w + 3600 <= cutoff
            ==> (#[trigger] archived_at(new, w) matches Some(x) && merged_live(
            x,
            asset,
            ArchiveTier::Medium,
            w,
            (w + 3600) as u64,
            hour_group(below, w),
        ))
    &&& forall|w: u64|
        archived_at(old, w) is None && !(hour_present(below, w) && w + 3600 <= cutoff)
            ==> #[trigger] archived_at(new, w) is None
}

/// `new` is the archive `old` with one daily bucket added for every day that some
/// bucket of `below` starts in, that ends by `cutoff`, and that `old` lacks.
pub open spec fn compressed_daily(
    old: Seq<ArchivedBucket>,
    new: Seq<ArchivedBucket>,
    asset: Seq<char>,
    below: Seq<ArchivedBucket>,
    cutoff: u64,
) -> bool {
    &&& sorted_ws(new)
    &&& forall|w: u64| #[trigger] archived_at(old, w) is Some ==> archived_at(new, w) == archived_at(old, w)
    &&& forall|w: u64|
        archived_at(old, w) is None && day_present(below, w) && w + 86400 <= cutoff
            ==> (#[trigger] archived_at(new, w) matches Some(x) && merged_daily(
            x,
            asset,
            w,
            (w + 86400) as u64,
            day_group(below, w),
        ))
    &&& forall|w: u64|
        archived_at(old, w) is None && !(day_present(below, w) && w + 86400 <= cutoff)
            ==> #[trigger] archived_at(new, w) is None
}

/// A selection of live buckets.
#[derive(Clone, Copy)]
pub enum BucketSel {
    /// Index below the bound.
    Below(u64),
    /// Index at or above the bound.
    From(u64),
    /// First timestamp in the hour starting at the given time.
    Hour(u64),
}

/// Whether `sel` selects `b`.
pub open spec fn bucket_selected(sel: BucketSel, b: PriceBucket) -> bool {
    match sel {
        BucketSel::Below(ci) => b.bucket_index < ci,
        BucketSel::From(ci) => b.bucket_index >= ci,
        BucketSel::Hour(w) => window_of(b.first_timestamp, 3600) == w,
    }
}

/// A selection of archived buckets.
#[derive(Clone, Copy)]
pub enum ArchivedSel {
    /// Window starting before the bound.
    Below(u64),
    /// Window starting at or after the bound.
    From(u64),
    /// Window starting in the day starting at the given time.
    Day(u64),
    /// Window starting within the inclusive range.
    Range(u64, u64),
}

/// Whether `sel` selects `a`.
pub open spec fn archived_selected(sel: ArchivedSel, a: ArchivedBucket) -> bool {
    match sel {
        ArchivedSel::Below(c) => a.window_start < c,
        ArchivedSel::From(c) => a.window_start >= c,
        ArchivedSel::Day(w) => window_of(a.window_start, 86400) == w,
        ArchivedSel::Range(lo, hi) => lo <= a.window_start && a.window_start <= hi,
    }
}

fn selects_bucket(sel: BucketSel, b: &PriceBucket) -> (r: bool)
    ensures
        r == bucket_selected(sel, *b),
{
    match sel {
        BucketSel::Below(ci) => b.bucket_index < ci,
        BucketSel::From(ci) => b.bucket_index >= ci,
        BucketSel::Hour(w) => {
            assert((b.first_timestamp / 3600) * 3600 <= b.first_timestamp) by (nonlinear_arith);
            (b.first_timestamp / 3600) * 3600 == w
        },
    }
}

fn selects_archived(sel: ArchivedSel, a: &ArchivedBucket) -> (r: bool)
    ensures
        r == archived_selected(sel, *a),
{
    match sel {
        ArchivedSel::Below(c) => a.window_start < c,
        ArchivedSel::From(c) => a.window_start >= c,
        ArchivedSel::Day(w) => {
            assert((a.window_start / 86400) * 86400 <= a.window_start) by (nonlinear_arith);
            (a.window_start / 86400) * 86400 == w
        },
        ArchivedSel::Range(lo, hi) => lo <= a.window_start && a.window_start <= hi,
    }
}

/// The buckets of `s` that `sel` selects, in order.
pub(crate) fn select_buckets(s: &Vec<PriceBucket>, sel: BucketSel) -> (r: Vec<PriceBucket>)
    ensures
        r@ == s@.filter(|b: PriceBucket| bucket_selected(sel, b)),
{
    let ghost p = |b: PriceBucket| bucket_selected(sel, b);
    let mut out: Vec<PriceBucket> = Vec::new();
    let mut i: usize = 0;
    while i < s.len()
        invariant
            i <= s@.len(),
            p == (|b: PriceBucket| bucket_selected(sel, b)),
            out@ == s@.take(i as int).filter(p),
        decreases s@.len() - i,
    {
        let b = s[i];
        proof {
            reveal_with_fuel(Seq::<_>::filter, 1);
            assert(s@.take(i + 1).drop_last() =~= s@.take(i as int));
            assert(s@.take(i + 1).last() == b);
        }
        if selects_bucket(sel, &b) {
            out.push(b);
        }
        i = i + 1;
    }
    proof {
        assert(s@.take(s@.len() as int) =~= s@);
    }
    out
}

/// The archived buckets of `s` that `sel` selects, in order.
pub(crate) fn select_archived(s: &Vec<ArchivedBucket>, sel: ArchivedSel) -> (r: Vec<ArchivedBucket>)
    ensures
        r@ == s@.filter(|a: ArchivedBucket| archived_selected(sel, a)),
{
    let ghost p = |a: ArchivedBucket| archived_selected(sel, a);
    let mut out: Vec<ArchivedBucket> = Vec::new();
    let mut i: usize = 0;
    while i < s.len()
        invariant
            i <= s@.len(),
            p == (|a: ArchivedBucket| archived_selected(sel, a)),
            out@ == s@.take(i as int).filter(p),
        decreases s@.len() - i,
    {
        let a = &s[i];
        proof {
            reveal_with_fuel(Seq::<_>::filter, 1);
            assert(s@.take(i + 1).drop_last() =~= s@.take(i as int));
            assert(s@.take(i + 1).last() == *a);
        }
        if selects_archived(sel, a) {
            out.push(a.clone());
        }
        i = i + 1;
    }
    proof {
        assert(s@.take(s@.len() as int) =~= s@);
    }
    out
}

/// Merge a group of live buckets into one archived bucket covering
/// `[window_start, window_end)`.
pub(crate) fn merge_buckets_into_archive(
    asset_id: &str,
    tier: ArchiveTier,
    window_start: u64,
    window_end: u64,
    buckets: &Vec<PriceBucket>,
) -> (r: ArchivedBucket)
    ensures
        merged_live(r, asset_id@, tier, window_start, window_end, buckets@),
{
    let n = buckets.len();
    let open = if n > 0 { buckets[0].open } else { 0 };
    let close = if n > 0 { buckets[n - 1].close } else { 0 };
    let mut high: u64 = 0;
    let mut low: u64 = 0;
    let mut volume: u64 = 0;
    let mut raw: u32 = 0;
    let mut i: usize = 0;
    while i < n
        invariant
            n == buckets@.len(),
            i <= n,
            high == max_high(buckets@.take(i as int)),
            low == min_low(buckets@.take(i as int)),
            volume == sat_volume(buckets@.take(i as int)),
            raw == sat_count(buckets@.take(i as int)),
        decreases n - i,
    {
        let b = buckets[i];
        proof {
            assert(buckets@.take(i + 1).drop_last() =~= buckets@.take(i as int));
            assert(buckets@.take(i + 1).last() == b);
        }
        if b.high > high {
            high = b.high;
        }
        if i == 0 || b.low < low {
            low = b.low;
        }
        volume = volume.saturating_add(b.volume);
        raw = raw.saturating_add(b.entry_count);
        i = i + 1;
    }
    proof {
        assert(buckets@.take(n as int) =~= buckets@);
    }
    let price_sum = sum_closes(buckets);
    ArchivedBucket {
        asset_id: String::from_str(asset_id),
        tier,
        window_start,
        window_end,
        open,
        high,
        low,
        close,
        price_sum,
        volume,
        raw_entry_count: raw,
    }
}

/// Merge a group of hourly archived buckets into one daily bucket covering
/// `[window_start, window_end)`.
pub(crate) fn merge_archived_into_daily(
    asset_id: &str,
    window_start: u64,
    window_end: u64,
    buckets: &Vec<ArchivedBucket>,
) -> (r: ArchivedBucket)
    ensures
        merged_daily(r, asset_id@, window_start, window_end, buckets@),
{
    let n = buckets.len();
    let open = if n > 0 { buckets[0].open } else { 0 };
    let close = if n > 0 { buckets[n - 1].close } else { 0 };
    let mut high: u64 = 0;
    let mut low: u64 = 0;
    let mut volume: u64 = 0;
    let mut raw: u32 = 0;
    let mut price_sum: u128 = 0;
    let mut i: usize = 0;
    while i < n
        invariant
            n == buckets@.len(),
            i <= n,
            high == max_high_a(buckets@.take(i as int)),
            low == min_low_a(buckets@.take(i as int)),
            volume == sat_volume_a(buckets@.take(i as int)),
            raw == sat_count_a(buckets@.take(i as int)),
            price_sum == sat_price_sum(buckets@.take(i as int)),
        decreases n - i,
    {
        let b = &buckets[i];
        proof {
            assert(buckets@.take(i + 1).drop_last() =~= buckets@.take(i as int));
            assert(buckets@.take(i + 1).last() == *b);
        }
        if b.high > high {
            high = b.high;
        }
        if i == 0 || b.low < low {
            low = b.low;
        }
        volume = volume.saturating_add(b.volume);
        raw = raw.saturating_add(b.raw_entry_count);
        price_sum = price_sum.saturating_add(b.price_sum);
        i = i + 1;
    }
    proof {
        assert(buckets@.take(n as int) =~= buckets@);
    }
    ArchivedBucket {
        asset_id: String::from_str(asset_id),
        tier: ArchiveTier::Historical,
        window_start,
        window_end,
        open,
        high,
        low,
        close,
        price_sum,
        volume,
        raw_entry_count: raw,
    }
}

/// Whether the archive holds a bucket starting at `w`.
pub(crate) fn has_window(s: &Vec<ArchivedBucket>, w: u64) -> (r: bool)
    ensures
        r == archived_at(s@, w) is Some,
{
    let mut i: usize = 0;
    while i < s.len()
        invariant
            i <= s@.len(),
            forall|j: int| 0 <= j < i ==> s@[j].window_start != w,
        decreases s@.len() - i,
    {
        if s[i].window_start == w {
            assert(0 <= i < s@.len() && s@[i as int].window_start == w);
            return true;
        }
        i = i + 1;
    }
    false
}

/// Insert `x` at its place in an archive that has no bucket starting where `x` does.
pub(crate) fn insert_archived(s: &mut Vec<ArchivedBucket>, x: ArchivedBucket)
    requires
        sorted_ws(old(s)@),
        archived_at(old(s)@, x.window_start) is None,
    ensures
        sorted_ws(final(s)@),
        final(s)@.len() == old(s)@.len() + 1,
        forall|w: u64|
            #[trigger] archived_at(final(s)@, w) == if w == x.window_start {
                Some(x)
            } else {
                archived_at(old(s)@, w)
            },
{
    let ghost s0 = s@;
    let t = x.window_start;
    let mut p: usize = 0;
    while p < s.len() && s[p].window_start < t
        invariant
            s@ == s0,
            p <= s0.len(),
            forall|i: int| 0 <= i < p ==> s0[i].window_start < t,
        decreases s0.len() - p,
    {
        p = p + 1;
    }
    proof {
        assert forall|i: int| p <= i < s0.len() implies s0[i].window_start > t by {
            if s0[i].window_start == t {
                assert(0 <= i < s0.len() && s0[i].window_start == t);
            }
            if i > p {
                assert(s0[p as int].window_start < s0[i].window_start);
            }
        }
    }
    s.insert(p, x);
    let ghost s1 = s@;
    proof {
        assert(s1 =~= s0.insert(p as int, x));
        assert(sorted_ws(s1)) by {
            assert forall|i: int, j: int| 0 <= i < j < s1.len() implies s1[i].window_start < s1[j].window_start by {
                if i < p && j > p {
                    assert(s1[j] == s0[j - 1]);
                } else if i == p {
                    assert(s1[j] == s0[j - 1]);
                } else if i > p {
                    assert(s1[i] == s0[i - 1]);
                    assert(s1[j] == s0[j - 1]);
                }
            }
        }
        assert forall|w: u64|
            #[trigger] archived_at(s1, w) == if w == t { Some(x) } else { archived_at(s0, w) } by {
            if w == t {
                lemma_archived_at_index(s1, p as int);
            } else if exists|i: int| 0 <= i < s0.len() && s0[i].window_start == w {
                let i = choose|i: int| 0 <= i < s0.len() && s0[i].window_start == w;
                lemma_archived_at_index(s0, i);
                let j = if i < p { i } else { i + 1 };
                assert(s1[j] == s0[i]);
                lemma_archived_at_index(s1, j);
            } else {
                assert forall|j: int| 0 <= j < s1.len() implies s1[j].window_start != w by {
                    if j < p {
                        assert(s1[j] == s0[j]);
                    } else if j > p {
                        assert(s1[j] == s0[j - 1]);
                    }
                }
            }
        }
    }
}

/// The hour starting at `w` of `g.take(n + 1)` is that of `g.take(n)`, with `g[n]`
/// added when it starts in that hour.
proof fn lemma_hour_group_step(g: Seq<PriceBucket>, n: int, w: u64)
    requires
        0 <= n < g.len(),
    ensures
        hour_group(g.take(n + 1), w) == if window_of(g[n].first_timestamp, 3600) == w {
            hour_group(g.take(n), w).push(g[n])
        } else {
            hour_group(g.take(n), w)
        },
{
    reveal_with_fuel(Seq::<_>::filter, 1);
    assert(g.take(n + 1).drop_last() =~= g.take(n));
    assert(g.take(n + 1).last() == g[n]);
}

/// Fold each bucket of `below` into the archived hour it starts in, when the
/// archive has that hour and it ends by `cutoff`.
fn merge_late_minutes(arch: &mut Vec<ArchivedBucket>, below: &Vec<PriceBucket>, cutoff: u64)
    requires
        sorted_ws(old(arch)@),
    ensures
        sorted_ws(final(arch)@),
        final(arch)@.len() == old(arch)@.len(),
        forall|i: int|
            0 <= i < old(arch)@.len() ==> #[trigger] final(arch)@[i] == hour_after_merge(old(arch)@[i], below@, cutoff),
{
    let ghost a0 = arch@;
    let mut j: usize = 0;
    proof {
        assert forall|i: int| 0 <= i < a0.len() implies #[trigger] arch@[i] == (if a0[i].window_start + 3600 <= cutoff {
            merged_late(a0[i], hour_group(below@.take(0), a0[i].window_start))
        } else {
            a0[i]
        }) by {
            assert(below@.take(0).filter(|b: PriceBucket| window_of(b.first_timestamp, 3600) == a0[i].window_start)
                =~= Seq::<PriceBucket>::empty()) by {
                reveal_with_fuel(Seq::<_>::filter, 1);
            }
        }
    }
    while j < below.len()
        invariant
            j <= below@.len(),
            arch@.len() == a0.len(),
            sorted_ws(a0),
            forall|i: int|
                0 <= i < a0.len() ==> #[trigger] arch@[i] == (if a0[i].window_start + 3600 <= cutoff {
                    merged_late(a0[i], hour_group(below@.take(j as int), a0[i].window_start))
                } else {
                    a0[i]
                }),
        decreases below@.len() - j,
    {
        let b = below[j];
        let t = b.first_timestamp;
        assert((t / 3600) * 3600 <= t) by (nonlinear_arith);
        let w0: u64 = (t / 3600) * 3600;
        proof {
            assert forall|i: int| 0 <= i < a0.len() implies #[trigger] arch@[i].window_start == a0[i].window_start by {
                lemma_merged_late_frame(a0[i], hour_group(below@.take(j as int), a0[i].window_start));
            }
        }
        let ghost before = arch@;
        let mut k: usize = 0;
        let mut found = false;
        if w0 <= cutoff && cutoff - w0 >= 3600 {
            while !found && k < arch.len()
                invariant
                    arch@ == before,
                    k <= arch@.len(),
                    found ==> k < arch@.len() && arch@[k as int].window_start == w0,
                    !found ==> forall|i: int| 0 <= i < k ==> arch@[i].window_start != w0,
                decreases arch@.len() - k + (if found { 0int } else { 1int }),
            {
                if arch[k].window_start == w0 {
                    found = true;
                } else {
                    k = k + 1;
                }
            }
        }
        if found {
            let x = arch[k].clone();
            let nx = ArchivedBucket {
                asset_id: x.asset_id,
                tier: x.tier,
                window_start: x.window_start,
                window_end: x.window_end,
                open: x.open,
                high: if b.high > x.high { b.high } else { x.high },
                low: if b.low < x.low { b.low } else { x.low },
                close: x.close,
                price_sum: x.price_sum.saturating_add(b.close as u128),
                volume: x.volume.saturating_add(b.volume),
                raw_entry_count: x.raw_entry_count.saturating_add(b.entry_count),
            };
            proof {
                assert(nx == merge_minute(before[k as int], b));
            }
            arch.set(k, nx);
        }
        proof {
            assert forall|i: int| 0 <= i < a0.len() implies #[trigger] arch@[i] == (if a0[i].window_start + 3600 <= cutoff {
                merged_late(a0[i], hour_group(below@.take(j + 1), a0[i].window_start))
            } else {
                a0[i]
            }) by {
                let ws = a0[i].window_start;
                lemma_hour_group_step(below@, j as int, ws);
                assert(below@[j as int] == b);
                assert(window_of(b.first_timestamp, 3600) == w0);
                assert(before[i].window_start == ws);
                if found && i == k {
                    assert(ws == w0);
                    assert(hour_group(below@.take(j + 1), ws).drop_last() == hour_group(below@.take(j as int), ws));
                } else if ws == w0 && ws + 3600 <= cutoff {
                    if found {
                        assert(before[k as int].window_start == w0);
                        if i < k {
                            assert(before[i].window_start < before[k as int].window_start);
                        } else {
                            assert(before[k as int].window_start < before[i].window_start);
                        }
                    } else {
                        assert(before[i].window_start != w0);
                    }
                }
            }
        }
        j = j + 1;
    }
    proof {
        assert(below@.take(below@.len() as int) =~= below@);
        assert forall|x: int, y: int| 0 <= x < y < arch@.len() implies arch@[x].window_start < arch@[y].window_start by {
            lemma_merged_late_frame(a0[x], hour_group(below@, a0[x].window_start));
            lemma_merged_late_frame(a0[y], hour_group(below@, a0[y].window_start));
        }
    }
}

/// Fold the late buckets of `below` into the archived hours ending by `cutoff`,
/// then add an hourly bucket for every hour, ending by `cutoff`, that some bucket
/// of `below` starts in and that the archive lacks.
pub(crate) fn compress_hourly(arch: &mut Vec<ArchivedBucket>, asset_id: &str, below: &Vec<PriceBucket>, cutoff: u64)
    requires
        sorted_ws(old(arch)@),
    ensures
        compressed_hourly(old(arch)@, final(arch)@, asset_id@, below@, cutoff),
        final(arch)@.len() >= old(arch)@.len(),
{
    let ghost a00 = arch@;
    merge_late_minutes(arch, below, cutoff);
    let ghost a0 = arch@;
    proof {
        assert forall|w: u64| #![trigger archived_at(a0, w)] #![trigger archived_at(a00, w)]
            (archived_at(a00, w) is Some ==> archived_at(a0, w) == Some(hour_after_merge(archived_at(a00, w)->0, below@, cutoff)))
            && (archived_at(a00, w) is None ==> archived_at(a0, w) is None) by {
            if archived_at(a00, w) is Some {
                let i = choose|i: int| 0 <= i < a00.len() && a00[i].window_start == w;
                lemma_archived_at_index(a00, i);
                lemma_merged_late_frame(a00[i], hour_group(below@, a00[i].window_start));
                lemma_archived_at_index(a0, i);
            } else {
                if exists|i: int| 0 <= i < a0.len() && a0[i].window_start == w {
                    let i = choose|i: int| 0 <= i < a0.len() && a0[i].window_start == w;
                    lemma_merged_late_frame(a00[i], hour_group(below@, a00[i].window_start));
                    assert(a00[i].window_start == w);
                }
            }
        }
    }
    let mut j: usize = 0;
    while j < below.len()
        invariant
            j <= below@.len(),
            sorted_ws(arch@),
            arch@.len() >= a0.len(),
            forall|w: u64| #[trigger] archived_at(a0, w) is Some ==> archived_at(arch@, w) == archived_at(a0, w),
            forall|w: u64|
                archived_at(a0, w) is None && hour_seen(below@, j as int, w) && w + 3600 <= cutoff
                    ==> (#[trigger] archived_at(arch@, w) matches Some(x) && merged_live(
                    x,
                    asset_id@,
                    ArchiveTier::Medium,
                    w,
                    (w + 3600) as u64,
                    hour_group(below@, w),
                )),
            forall|w: u64|
                archived_at(a0, w) is None && !(hour_seen(below@, j as int, w) && w + 3600 <= cutoff)
                    ==> #[trigger] archived_at(arch@, w) is None,
        decreases below@.len() - j,
    {
        let t = below[j].first_timestamp;
        assert((t / 3600) * 3600 <= t) by (nonlinear_arith);
        let w0: u64 = (t / 3600) * 3600;
        proof {
            assert forall|w: u64| #[trigger] hour_seen(below@, j + 1, w) == (hour_seen(below@, j as int, w) || w == w0) by {
                if w == w0 {
                    assert(window_of(below@[j as int].first_timestamp, 3600) == w);
                }
                if hour_seen(below@, j + 1, w) && w != w0 {
                    let i = choose|i: int| 0 <= i < j + 1 && window_of(below@[i].first_timestamp, 3600) == w;
                    assert(i != j);
                }
            }
        }
        if w0 <= cutoff && cutoff - w0 >= 3600 {
            if !has_window(arch, w0) {
                let group = select_buckets(below, BucketSel::Hour(w0));
                assert(group@ == hour_group(below@, w0)) by {
                    assert((|b: PriceBucket| bucket_selected(BucketSel::Hour(w0), b)) =~= (|b: PriceBucket|
                        window_of(b.first_timestamp, 3600) == w0));
                }
                let x = merge_buckets_into_archive(asset_id, ArchiveTier::Medium, w0, w0 + 3600, &group);
                insert_archived(arch, x);
            }
        }
        j = j + 1;
    }
}

/// Add to the archive a daily bucket for every day, ending by `cutoff`, that some
/// bucket of `below` starts in and that the archive lacks.
pub(crate) fn compress_daily(arch: &mut Vec<ArchivedBucket>, asset_id: &str, below: &Vec<ArchivedBucket>, cutoff: u64)
    requires
        sorted_ws(old(arch)@),
    ensures
        compressed_daily(old(arch)@, final(arch)@, asset_id@, below@, cutoff),
        final(arch)@.len() >= old(arch)@.len(),
{
    let ghost a0 = arch@;
    let mut j: usize = 0;
    while j < below.len()
        invariant
            j <= below@.len(),
            sorted_ws(arch@),
            arch@.len() >= a0.len(),
            forall|w: u64| #[trigger] archived_at(a0, w) is Some ==> archived_at(arch@, w) == archived_at(a0, w),
            forall|w: u64|
                archived_at(a0, w) is None && day_seen(below@, j as int, w) && w + 86400 <= cutoff
                    ==> (#[trigger] archived_at(arch@, w) matches Some(x) && merged_daily(
                    x,
                    asset_id@,
                    w,
                    (w + 86400) as u64,
                    day_group(below@, w),
                )),
            forall|w: u64|
                archived_at(a0, w) is None && !(day_seen(below@, j as int, w) && w + 86400 <= cutoff)
                    ==> #[trigger] archived_at(arch@, w) is None,
        decreases below@.len() - j,
    {
        let t = below[j].window_start;
        assert((t / 86400) * 86400 <= t) by (nonlinear_arith);
        let w0: u64 = (t / 86400) * 86400;
        proof {
            assert forall|w: u64| #[trigger] day_seen(below@, j + 1, w) == (day_seen(below@, j as int, w) || w == w0) by {
                if w == w0 {
                    assert(window_of(below@[j as int].window_start, 86400) == w);
                }
                if day_seen(below@, j + 1, w) && w != w0 {
                    let i = choose|i: int| 0 <= i < j + 1 && window_of(below@[i].window_start, 86400) == w;
                    assert(i != j);
                }
            }
        }
        if w0 <= cutoff && cutoff - w0 >= 86400 {
            if !has_window(arch, w0) {
                let group = select_archived(below, ArchivedSel::Day(w0));
                assert(group@ == day_group(below@, w0)) by {
                    assert((|a: ArchivedBucket| archived_selected(ArchivedSel::Day(w0), a)) =~= (|a: ArchivedBucket|
                        window_of(a.window_start, 86400) == w0));
                }
                let x = merge_archived_into_daily(asset_id, w0, w0 + 86400, &group);
                insert_archived(arch, x);
            }
        }
        j = j + 1;
    }
}

} // verus!
