//! Ordered series of price buckets and archived buckets.
//!
//! A live series holds at most one bucket per bucket index, in strictly
//! increasing index order; an archive series holds at most one archived bucket
//! per window start, in strictly increasing window order.

use vstd::prelude::*;
use crate::price_history::{ArchivedBucket, PriceBucket, TimeBucket};

verus! {

/// Buckets are in strictly increasing index order.
pub open spec fn sorted_idx(s: Seq<PriceBucket>) -> bool {
    forall|i: int, j: int| 0 <= i < j < s.len() ==> s[i].bucket_index < s[j].bucket_index
}

/// The bucket with index `k` in a series, if any.
pub open spec fn bucket_at(s: Seq<PriceBucket>, k: u64) -> Option<PriceBucket> {
    if exists|i: int| 0 <= i < s.len() && s[i].bucket_index == k {
        Some(s[choose|i: int| 0 <= i < s.len() && s[i].bucket_index == k])
    } else {
        None
    }
}

/// Archived buckets are in strictly increasing window order.
pub open spec fn sorted_ws(s: Seq<ArchivedBucket>) -> bool {
    forall|i: int, j: int| 0 <= i < j < s.len() ==> s[i].window_start < s[j].window_start
}

/// The archived bucket starting at `w` in a series, if any.
pub open spec fn archived_at(s: Seq<ArchivedBucket>, w: u64) -> Option<ArchivedBucket> {
    if exists|i: int| 0 <= i < s.len() && s[i].window_start == w {
        Some(s[choose|i: int| 0 <= i < s.len() && s[i].window_start == w])
    } else {
        None
    }
}

pub proof fn lemma_bucket_at_index(s: Seq<PriceBucket>, i: int)
    requires
        sorted_idx(s),
        0 <= i < s.len(),
    ensures
        bucket_at(s, s[i].bucket_index) == Some(s[i]),
{
    let k = s[i].bucket_index;
    let j = choose|j: int| 0 <= j < s.len() && s[j].bucket_index == k;
    assert(0 <= j < s.len() && s[j].bucket_index == k);
    if j < i {
        assert(s[j].bucket_index < s[i].bucket_index);
    } else if i < j {
        assert(s[i].bucket_index < s[j].bucket_index);
    }
}

pub proof fn lemma_archived_at_index(s: Seq<ArchivedBucket>, i: int)
    requires
        sorted_ws(s),
        0 <= i < s.len(),
    ensures
        archived_at(s, s[i].window_start) == Some(s[i]),
{
    let k = s[i].window_start;
    let j = choose|j: int| 0 <= j < s.len() && s[j].window_start == k;
    assert(0 <= j < s.len() && s[j].window_start == k);
    if j < i {
        assert(s[j].window_start < s[i].window_start);
    } else if i < j {
        assert(s[i].window_start < s[j].window_start);
    }
}

/// Keeping some buckets of an ordered series keeps it ordered.
pub proof fn lemma_filter_sorted_idx(s: Seq<PriceBucket>, p: spec_fn(PriceBucket) -> bool)
    requires
        sorted_idx(s),
    ensures
        sorted_idx(s.filter(p)),
    decreases s.len(),
{
    reveal_with_fuel(Seq::<_>::filter, 1);
    if s.len() > 0 {
        let d = s.drop_last();
        assert(sorted_idx(d));
        lemma_filter_sorted_idx(d, p);
        if p(s.last()) {
            let f = d.filter(p);
            assert forall|k: int| 0 <= k < f.len() implies f[k].bucket_index < s.last().bucket_index by {
                assert(f.contains(f[k]));
                d.lemma_filter_contains_rev(p, f[k]);
                let m = choose|m: int| 0 <= m < d.len() && d[m] == f[k];
                assert(s[m] == d[m]);
            }
        }
    }
}

/// Keeping some buckets of an ordered archive keeps it ordered.
pub proof fn lemma_filter_sorted_ws(s: Seq<ArchivedBucket>, p: spec_fn(ArchivedBucket) -> bool)
    requires
        sorted_ws(s),
    ensures
        sorted_ws(s.filter(p)),
    decreases s.len(),
{
    reveal_with_fuel(Seq::<_>::filter, 1);
    if s.len() > 0 {
        let d = s.drop_last();
        assert(sorted_ws(d));
        lemma_filter_sorted_ws(d, p);
        if p(s.last()) {
            let f = d.filter(p);
            assert forall|k: int| 0 <= k < f.len() implies f[k].window_start < s.last().window_start by {
                assert(f.contains(f[k]));
                d.lemma_filter_contains_rev(p, f[k]);
                let m = choose|m: int| 0 <= m < d.len() && d[m] == f[k];
                assert(s[m] == d[m]);
            }
        }
    }
}

/// The bucket after recording a price in it, or the fresh bucket a first price opens.
/// A fresh bucket starts with the entry's volume and then adds it once more, as the
/// recording step always does.
pub open spec fn record_in_bucket(
    old: Option<PriceBucket>,
    bt: TimeBucket,
    idx: u64,
    price: u64,
    ts: u64,
    volume: u64,
) -> PriceBucket {
    match old {
        None => PriceBucket {
            bucket_type: bt,
            bucket_index: idx,
            open: price,
            high: price,
            low: price,
            close: price,
            volume: (volume + volume) as u64,
            entry_count: 1,
            first_timestamp: ts,
            last_timestamp: ts,
        },
        Some(b) => PriceBucket {
            close: price,
            high: if b.high >= price { b.high } else { price },
            low: if b.low <= price { b.low } else { price },
            volume: (b.volume + volume) as u64,
            entry_count: (b.entry_count + 1) as u32,
            last_timestamp: ts,
            ..b
        },
    }
}

/// Recording a price in a bucket stays within the counters' ranges.
/// A live bucket holds at least one entry and its open and close lie within its
/// low and high.
pub open spec fn live_shape(b: PriceBucket) -> bool {
    &&& b.entry_count >= 1
    &&& b.low <= b.open <= b.high
    &&& b.low <= b.close <= b.high
}

/// Every bucket of a live series has the live shape.
pub open spec fn series_shaped(s: Seq<PriceBucket>) -> bool {
    forall|i: int| 0 <= i < s.len() ==> live_shape(#[trigger] s[i])
}

/// Keeping part of a live series keeps the live shape.
pub proof fn lemma_filter_shaped(s: Seq<PriceBucket>, p: spec_fn(PriceBucket) -> bool)
    requires
        series_shaped(s),
    ensures
        series_shaped(s.filter(p)),
{
    assert forall|i: int| 0 <= i < s.filter(p).len() implies live_shape(#[trigger] s.filter(p)[i]) by {
        assert(s.filter(p).contains(s.filter(p)[i]));
        s.lemma_filter_contains_rev(p, s.filter(p)[i]);
        let k = choose|k: int| 0 <= k < s.len() && s[k] == s.filter(p)[i];
        assert(live_shape(s[k]));
    }
}

/// Law: recording a price into a bucket — new or existing — leaves that price as
/// the bucket's close and last time, within its low and high, and counts one
/// more entry; an existing bucket keeps its open and first time.
pub proof fn lemma_record_in_bucket(old: Option<PriceBucket>, bt: TimeBucket, idx: u64, price: u64, ts: u64, volume: u64)
    requires
        record_fits(old, volume),
    ensures
        record_in_bucket(old, bt, idx, price, ts, volume).close == price,
        record_in_bucket(old, bt, idx, price, ts, volume).last_timestamp == ts,
        record_in_bucket(old, bt, idx, price, ts, volume).low <= price <= record_in_bucket(
            old,
            bt,
            idx,
            price,
            ts,
            volume,
        ).high,
        old matches Some(b) ==> record_in_bucket(old, bt, idx, price, ts, volume).open == b.open
            && record_in_bucket(old, bt, idx, price, ts, volume).first_timestamp == b.first_timestamp
            && record_in_bucket(old, bt, idx, price, ts, volume).entry_count == b.entry_count + 1,
        old is None ==> record_in_bucket(old, bt, idx, price, ts, volume).open == price
            && record_in_bucket(old, bt, idx, price, ts, volume).entry_count == 1,
{
}

pub open spec fn record_fits(old: Option<PriceBucket>, volume: u64) -> bool {
    match old {
        None => volume + volume <= u64::MAX,
        Some(b) => b.volume + volume <= u64::MAX && b.entry_count + 1 <= u32::MAX,
    }
}

/// Record a price in the bucket with index `idx`, creating it in order when absent.
pub fn record_price(
    s: &mut Vec<PriceBucket>,
    bt: TimeBucket,
    idx: u64,
    price: u64,
    ts: u64,
    volume: u64,
)
    requires
        sorted_idx(old(s)@),
        record_fits(bucket_at(old(s)@, idx), volume),
    ensures
        sorted_idx(final(s)@),
        forall|k: u64|
            #[trigger] bucket_at(final(s)@, k) == if k == idx {
                Some(record_in_bucket(bucket_at(old(s)@, idx), bt, idx, price, ts, volume))
            } else {
                bucket_at(old(s)@, k)
            },
        series_shaped(old(s)@) ==> series_shaped(final(s)@),
        bucket_at(final(s)@, idx) matches Some(b) && b.close == price && b.last_timestamp == ts && b.low <= price
            <= b.high,
{
    let ghost s0 = s@;
    let mut p: usize = 0;
    while p < s.len() && s[p].bucket_index < idx
        invariant
            s@ == s0,
            sorted_idx(s0),
            p <= s@.len(),
            forall|i: int| 0 <= i < p ==> s@[i].bucket_index < idx,
        decreases s@.len() - p,
    {
        p = p + 1;
    }
    if p < s.len() && s[p].bucket_index == idx {
        let b = s[p];
        proof {
            lemma_bucket_at_index(s0, p as int);
        }
        let nb = PriceBucket {
            close: price,
            high: if b.high >= price { b.high } else { price },
            low: if b.low <= price { b.low } else { price },
            volume: b.volume + volume,
            entry_count: b.entry_count + 1,
            last_timestamp: ts,
            ..b
        };
        s.set(p, nb);
        proof {
            let s1 = s@;
            assert(s1 == s0.update(p as int, nb));
            if series_shaped(s0) {
                assert(live_shape(s0[p as int]));
                assert forall|i: int| 0 <= i < s1.len() implies live_shape(#[trigger] s1[i]) by {
                    if i != p {
                        assert(s1[i] == s0[i]);
                    }
                }
            }
            assert(sorted_idx(s1));
            assert forall|k: u64| #[trigger] bucket_at(s1, k) == if k == idx {
                Some(record_in_bucket(bucket_at(s0, idx), bt, idx, price, ts, volume))
            } else {
                bucket_at(s0, k)
            } by {
                if k == idx {
                    lemma_bucket_at_index(s1, p as int);
                } else {
                    if exists|i: int| 0 <= i < s0.len() && s0[i].bucket_index == k {
                        let i = choose|i: int| 0 <= i < s0.len() && s0[i].bucket_index == k;
                        lemma_bucket_at_index(s0, i);
                        assert(i != p);
                        assert(s1[i] == s0[i]);
                        lemma_bucket_at_index(s1, i);
                    } else {
                        assert(!exists|i: int| 0 <= i < s1.len() && s1[i].bucket_index == k) by {
                            if exists|i: int| 0 <= i < s1.len() && s1[i].bucket_index == k {
                                let i = choose|i: int| 0 <= i < s1.len() && s1[i].bucket_index == k;
                                assert(s0[i].bucket_index == k);
                            }
                        }
                    }
                }
            }
        }
    } else {
        let nb = PriceBucket {
            bucket_type: bt,
            bucket_index: idx,
            open: price,
            high: price,
            low: price,
            close: price,
            volume: volume + volume,
            entry_count: 1,
            first_timestamp: ts,
            last_timestamp: ts,
        };
        proof {
            assert(!exists|i: int| 0 <= i < s0.len() && s0[i].bucket_index == idx) by {
                if exists|i: int| 0 <= i < s0.len() && s0[i].bucket_index == idx {
                    let i = choose|i: int| 0 <= i < s0.len() && s0[i].bucket_index == idx;
                    if i < p {
                    } else if i > p {
                        assert(s0[p as int].bucket_index < s0[i].bucket_index);
                    }
                }
            }
        }
        s.insert(p, nb);
        proof {
            let s1 = s@;
            assert(s1 == s0.insert(p as int, nb));
            if series_shaped(s0) {
                assert forall|i: int| 0 <= i < s1.len() implies live_shape(#[trigger] s1[i]) by {
                    if i < p {
                        assert(s1[i] == s0[i]);
                    } else if i > p {
                        assert(s1[i] == s0[i - 1]);
                    }
                }
            }
            assert forall|i: int, j: int| 0 <= i < j < s1.len() implies s1[i].bucket_index
                < s1[j].bucket_index by {
                if j < p {
                } else if j == p {
                } else if i < p {
                    assert(s1[j] == s0[j - 1]);
                    if (p as int) < s0.len() {
                        assert(s0[p as int].bucket_index > idx);
                        assert(s0[p as int].bucket_index <= s0[j - 1].bucket_index);
                    }
                } else if i == p {
                    assert(s1[j] == s0[j - 1]);
                    assert(s0[p as int].bucket_index <= s0[j - 1].bucket_index);
                } else {
                    assert(s1[i] == s0[i - 1]);
                    assert(s1[j] == s0[j - 1]);
                }
            }
            assert forall|k: u64| #[trigger] bucket_at(s1, k) == if k == idx {
                Some(record_in_bucket(bucket_at(s0, idx), bt, idx, price, ts, volume))
            } else {
                bucket_at(s0, k)
            } by {
                if k == idx {
                    lemma_bucket_at_index(s1, p as int);
                } else {
                    if exists|i: int| 0 <= i < s0.len() && s0[i].bucket_index == k {
                        let i = choose|i: int| 0 <= i < s0.len() && s0[i].bucket_index == k;
                        lemma_bucket_at_index(s0, i);
                        let i1 = if i < p { i } else { i + 1 };
                        assert(s1[i1] == s0[i]);
                        lemma_bucket_at_index(s1, i1);
                    } else {
                        assert(!exists|i: int| 0 <= i < s1.len() && s1[i].bucket_index == k) by {
                            if exists|i: int| 0 <= i < s1.len() && s1[i].bucket_index == k {
                                let i = choose|i: int| 0 <= i < s1.len() && s1[i].bucket_index == k;
                                if i < p {
                                    assert(s0[i].bucket_index == k);
                                } else if i > p {
                                    assert(s0[i - 1].bucket_index == k);
                                }
                            }
                        }
                    }
                }
            }
        }
    }
}

} // verus!
