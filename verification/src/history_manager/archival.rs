//! Tiered archival: old live buckets become hourly archived buckets, old hourly
//! buckets become daily ones.

use vstd::prelude::*;
use super::query::archive_series;
use super::{archive_view, cache_consistent, hourly_shape, live_shaped, live_view, medium_shaped, store_shaped, series_of, view_ordered, HistoryView, PriceHistoryManager};
use crate::bucket_series::{archived_at, lemma_archived_at_index, lemma_filter_shaped, live_shape, series_shaped, lemma_filter_sorted_idx, lemma_filter_sorted_ws, sorted_idx, sorted_ws};
use crate::compaction::{
    archive_below, archive_kept, archived_selected, bucket_selected, compress_daily, compress_hourly,
    compressed_daily, compressed_hourly, hour_after_merge, max_high, merged_late, min_low, sat_count, hour_group, hour_present, lemma_merged_late_frame, live_below, window_of, live_kept, select_archived, select_buckets,
    ArchivedSel, BucketSel,
};
use crate::keyed::{distinct_keys, enumerates, find_key, keys_of, lemma_remove, lemma_update, to_map, upsert};
use crate::price_history::{
    bucket_secs, ArchivalStats, ArchivedBucket, PriceBucket, PriceHistoryError, TimeBucket, TIER_MEDIUM_SECS,
    TIER_RECENT_SECS,
};
use super::analytics::sat_sub;

verus! {

/// `x` as a `u32`, saturating at both ends.
pub open spec fn sat_u32(x: int) -> u32 {
    if x > u32::MAX {
        u32::MAX
    } else if x < 0 {
        0
    } else {
        x as u32
    }
}

/// The live series and the archives of asset `a` are the same in both views.
pub open spec fn asset_untouched(v0: HistoryView, v1: HistoryView, a: Seq<char>) -> bool {
    &&& forall|bt: TimeBucket| #[trigger] series_of(v1, bt, a) == series_of(v0, bt, a)
    &&& v1.medium.dom().contains(a) == v0.medium.dom().contains(a)
    &&& archive_series(v1.medium, a) == archive_series(v0.medium, a)
    &&& v1.historical.dom().contains(a) == v0.historical.dom().contains(a)
    &&& archive_series(v1.historical, a) == archive_series(v0.historical, a)
}

/// Everything but the live series and the archives is the same in both views.
pub open spec fn same_frame(v0: HistoryView, v1: HistoryView) -> bool {
    &&& forall|bt: TimeBucket| #[trigger] v1.live[bt].dom() == v0.live[bt].dom()
    &&& v1.metadata == v0.metadata
    &&& v1.analytics == v0.analytics
    &&& v1.config == v0.config
}

/// The start of the hour that `c` falls in.
pub open spec fn hour_floor(c: u64) -> u64 {
    (c / 3600 * 3600) as u64
}

/// First bucket index kept by archival at `cutoff` at granularity `bt`: one-minute
/// buckets are kept from the start of the hour of the cutoff, so that only the
/// minutes of completed, archived hours leave; coarser buckets from the cutoff.
pub open spec fn live_cut(bt: TimeBucket, c: u64) -> u64 {
    if bt == TimeBucket::OneMinute {
        hour_floor(c) / 60
    } else {
        c / bucket_secs(bt)
    }
}

/// Compressing the live data of `a` older than `cutoff`: when some one-minute bucket
/// lies before the hour of the cutoff, the hourly archive of `a` gains the hours
/// those buckets fall in (all completed by the cutoff), exactly those one-minute
/// buckets leave, and every coarser live series of `a` drops its buckets before the
/// cutoff; otherwise nothing changes.
pub open spec fn live_archived(v0: HistoryView, v1: HistoryView, a: Seq<char>, cutoff: u64) -> bool {
    let below = live_below(series_of(v0, TimeBucket::OneMinute, a), live_cut(TimeBucket::OneMinute, cutoff));
    if below.len() == 0 {
        asset_untouched(v0, v1, a)
    } else {
        &&& forall|bt: TimeBucket| #[trigger] series_of(v1, bt, a) == live_kept(series_of(v0, bt, a), live_cut(bt, cutoff))
        &&& v1.medium.dom().contains(a)
        &&& compressed_hourly(archive_series(v0.medium, a), v1.medium[a], a, below, hour_floor(cutoff))
        &&& v1.historical.dom().contains(a) == v0.historical.dom().contains(a)
        &&& archive_series(v1.historical, a) == archive_series(v0.historical, a)
    }
}

/// Compressing the hourly archive of `a` older than `cutoff`: when some hourly
/// bucket starts before the cutoff, those buckets leave the hourly archive and the
/// daily archive of `a` gains the completed days; otherwise nothing changes.
pub open spec fn medium_archived(v1: HistoryView, v2: HistoryView, a: Seq<char>, cutoff: u64) -> bool {
    let below = archive_below(archive_series(v1.medium, a), cutoff);
    if below.len() == 0 {
        asset_untouched(v1, v2, a)
    } else {
        &&& forall|bt: TimeBucket| #[trigger] series_of(v2, bt, a) == series_of(v1, bt, a)
        &&& v2.medium.dom().contains(a)
        &&& v2.medium[a] == archive_kept(v1.medium[a], cutoff)
        &&& v2.historical.dom().contains(a)
        &&& compressed_daily(archive_series(v1.historical, a), v2.historical[a], a, below, cutoff)
    }
}

/// The extremes and the entry count of a non-empty group of live buckets bound
/// each of its buckets.
proof fn lemma_group_bounds(g: Seq<PriceBucket>)
    requires
        series_shaped(g),
        g.len() > 0,
    ensures
        forall|i: int| 0 <= i < g.len() ==> min_low(g) <= #[trigger] g[i].low && g[i].high <= max_high(g),
        sat_count(g) >= 1,
    decreases g.len(),
{
    let t = g.drop_last();
    if g.len() > 1 {
        assert forall|i: int| 0 <= i < t.len() implies live_shape(#[trigger] t[i]) by {
            assert(t[i] == g[i]);
        }
        lemma_group_bounds(t);
        assert forall|i: int| 0 <= i < g.len() implies min_low(g) <= #[trigger] g[i].low && g[i].high <= max_high(g) by {
            if i < g.len() - 1 {
                assert(t[i] == g[i]);
            }
        }
    } else {
        assert(live_shape(g[0]));
        assert(t.len() == 0);
    }
}

/// Folding late buckets into an archived hour keeps its entry count positive and
/// its open and close within its range.
proof fn lemma_merged_late_shape(x: ArchivedBucket, g: Seq<PriceBucket>)
    requires
        x.raw_entry_count >= 1,
        x.low <= x.open <= x.high,
        x.low <= x.close <= x.high,
    ensures
        merged_late(x, g).raw_entry_count >= 1,
        merged_late(x, g).low <= merged_late(x, g).open <= merged_late(x, g).high,
        merged_late(x, g).low <= merged_late(x, g).close <= merged_late(x, g).high,
    decreases g.len(),
{
    if g.len() > 0 {
        lemma_merged_late_shape(x, g.drop_last());
    }
}

/// The hours added by compressing live buckets have the hourly shape, so the
/// archive keeps it.
proof fn lemma_compressed_shaped(
    old: Seq<ArchivedBucket>,
    new: Seq<ArchivedBucket>,
    asset: Seq<char>,
    below: Seq<PriceBucket>,
    cutoff: u64,
)
    requires
        compressed_hourly(old, new, asset, below, cutoff),
        forall|i: int| 0 <= i < old.len() ==> hourly_shape(#[trigger] old[i]),
        series_shaped(below),
    ensures
        forall|i: int| 0 <= i < new.len() ==> hourly_shape(#[trigger] new[i]),
{
    assert forall|i: int| 0 <= i < new.len() implies hourly_shape(#[trigger] new[i]) by {
        let w = new[i].window_start;
        lemma_archived_at_index(new, i);
        assert(archived_at(new, w) == Some(new[i]));
        if archived_at(old, w) is Some {
            let k = choose|k: int| 0 <= k < old.len() && old[k].window_start == w;
            assert(archived_at(old, w) == Some(old[k]));
            assert(hourly_shape(old[k]));
            lemma_merged_late_frame(old[k], hour_group(below, old[k].window_start));
            lemma_merged_late_shape(old[k], hour_group(below, old[k].window_start));
            assert(new[i] == hour_after_merge(old[k], below, cutoff));
        } else if hour_present(below, w) && w + 3600 <= cutoff {
            let m = choose|m: int| 0 <= m < below.len() as int && window_of(below[m].first_timestamp, 3600) == w;
            let t = below[m].first_timestamp;
            assert(((t / 3600) * 3600) % 3600 == 0) by (nonlinear_arith);
            assert((t / 3600) * 3600 <= t) by (nonlinear_arith);
            let g = hour_group(below, w);
            let f = |b: PriceBucket| window_of(b.first_timestamp, 3600) == w;
            lemma_filter_shaped(below, f);
            assert(g == below.filter(f));
            below.lemma_filter_contains(f, m);
            assert(g.len() > 0);
            lemma_group_bounds(g);
            assert(live_shape(g[0]));
            assert(live_shape(g[g.len() - 1]));
        } else {
            assert(archived_at(new, w) is None);
        }
    }
}

/// Keeping part of an archive keeps the hourly shape.
proof fn lemma_kept_shaped(s: Seq<ArchivedBucket>, c: u64)
    requires
        forall|i: int| 0 <= i < s.len() ==> hourly_shape(#[trigger] s[i]),
    ensures
        forall|i: int| 0 <= i < archive_kept(s, c).len() ==> hourly_shape(#[trigger] archive_kept(s, c)[i]),
{
    let f = |a: ArchivedBucket| a.window_start >= c;
    assert(archive_kept(s, c) == s.filter(f));
    assert forall|i: int| 0 <= i < s.filter(f).len() implies hourly_shape(#[trigger] s.filter(f)[i]) by {
        assert(s.filter(f).contains(s.filter(f)[i]));
        s.lemma_filter_contains_rev(f, s.filter(f)[i]);
        let k = choose|k: int| 0 <= k < s.len() && s[k] == s.filter(f)[i];
        assert(hourly_shape(s[k]));
    }
}

/// The store after keeping, for `asset`, only the buckets with index at least `ci`.
pub open spec fn pruned_store(m: Map<Seq<char>, Seq<PriceBucket>>, asset: Seq<char>, ci: u64) -> Map<Seq<char>, Seq<PriceBucket>> {
    if m.dom().contains(asset) {
        m.insert(asset, live_kept(m[asset], ci))
    } else {
        m
    }
}

/// Keep, for `asset`, only the buckets of the store with index at least `ci`.
fn prune_asset(store: &mut Vec<(String, Vec<PriceBucket>)>, asset_id: &str, ci: u64)
    requires
        distinct_keys(old(store)@),
        forall|a: Seq<char>| #[trigger] live_view(old(store)@).dom().contains(a) ==> sorted_idx(live_view(old(store)@)[a]),
    ensures
        distinct_keys(final(store)@),
        forall|a: Seq<char>| #[trigger] live_view(final(store)@).dom().contains(a) ==> sorted_idx(live_view(final(store)@)[a]),
        live_view(final(store)@) == pruned_store(live_view(old(store)@), asset_id@, ci),
{
    let ghost s0 = store@;
    let ghost m0 = live_view(s0);
    match find_key(store, asset_id) {
        None => {},
        Some(i) => {
            let (k, series) = store.remove(i);
            proof {
                assert(store@ == s0.remove(i as int));
                assert(m0.dom().contains(asset_id@));
                assert(series@ == m0[asset_id@]);
            }
            let kept = select_buckets(&series, BucketSel::From(ci));
            proof {
                assert((|b: PriceBucket| bucket_selected(BucketSel::From(ci), b)) =~= (|b: PriceBucket| b.bucket_index >= ci));
                assert(kept@ == live_kept(series@, ci));
                lemma_filter_sorted_idx(series@, |b: PriceBucket| b.bucket_index >= ci);
                lemma_update(s0, i as int, k, kept);
            }
            store.insert(i, (k, kept));
            proof {
                assert(store@ =~= s0.update(i as int, (k, kept)));
                assert(live_view(store@) =~= m0.insert(asset_id@, kept@));
            }
        },
    }
}

/// Take the archive series of `asset_id` out of the store.
fn take_archive(store: &mut Vec<(String, Vec<ArchivedBucket>)>, asset_id: &str) -> (r: Vec<ArchivedBucket>)
    requires
        distinct_keys(old(store)@),
    ensures
        distinct_keys(final(store)@),
        to_map(final(store)@) == to_map(old(store)@).remove(asset_id@),
        r@ == archive_series(archive_view(old(store)@), asset_id@),
{
    let ghost s0 = store@;
    match find_key(store, asset_id) {
        None => {
            proof {
                assert(to_map(s0).remove(asset_id@) =~= to_map(s0));
            }
            Vec::new()
        },
        Some(i) => {
            proof {
                lemma_remove(s0, i as int);
            }
            let (_k, arch) = store.remove(i);
            proof {
                assert(store@ == s0.remove(i as int));
            }
            arch
        },
    }
}

impl PriceHistoryManager {
    /// Compress the one-minute buckets of `asset_id` that lie before the hour of
    /// `cutoff` into hourly archived buckets, drop exactly those one-minute buckets,
    /// and drop the coarser live buckets before `cutoff`.  Returns the number of archived buckets created and of one-minute
    /// buckets removed.
    fn compress_live_to_medium(&mut self, asset_id: &str, cutoff: u64) -> (r: (u32, u32))
        requires
            old(self).wf(),
        ensures
            final(self).wf(),
            same_frame(old(self)@, final(self)@),
            final(self)@.last_archival_run == old(self)@.last_archival_run,
            live_archived(old(self)@, final(self)@, asset_id@, cutoff),
            forall|a: Seq<char>| a != asset_id@ ==> #[trigger] asset_untouched(old(self)@, final(self)@, a),
            archive_series(final(self)@.medium, asset_id@).len() >= archive_series(old(self)@.medium, asset_id@).len(),
            series_of(final(self)@, TimeBucket::OneMinute, asset_id@).len() <= series_of(
                old(self)@,
                TimeBucket::OneMinute,
                asset_id@,
            ).len(),
            r.0 == sat_u32(
                archive_series(final(self)@.medium, asset_id@).len() - archive_series(old(self)@.medium, asset_id@).len(),
            ),
            r.1 == sat_u32(
                series_of(old(self)@, TimeBucket::OneMinute, asset_id@).len() - series_of(
                    final(self)@,
                    TimeBucket::OneMinute,
                    asset_id@,
                ).len(),
            ),
    {
        let ghost v0 = self@;
        proof {
            self.lemma_view_live(TimeBucket::OneMinute);
        }
        let hc: u64 = cutoff / 3600 * 3600;
        let ci = hc / 60;
        let (below, before) = match find_key(&self.live_1m, asset_id) {
            Some(i) => (select_buckets(&self.live_1m[i].1, BucketSel::Below(ci)), self.live_1m[i].1.len()),
            None => {
                proof {
                    reveal_with_fuel(Seq::<_>::filter, 1);
                    assert forall|a: Seq<char>| #[trigger] asset_untouched(v0, v0, a) by {}
                }
                return (0, 0);
            },
        };
        proof {
            assert((|b: PriceBucket| bucket_selected(BucketSel::Below(ci), b)) =~= (|b: PriceBucket| b.bucket_index < ci));
            assert(below@ == live_below(series_of(v0, TimeBucket::OneMinute, asset_id@), ci));
        }
        if below.len() == 0 {
            proof {
                assert forall|a: Seq<char>| #[trigger] asset_untouched(v0, v0, a) by {}
            }
            return (0, 0);
        }
        let mut arch = take_archive(&mut self.medium_archive, asset_id);
        proof {
            assert(view_ordered(v0));
            if v0.medium.dom().contains(asset_id@) {
                assert(sorted_ws(v0.medium[asset_id@]));
            }
        }
        let old_len = arch.len();
        let ghost arch0 = arch@;
        compress_hourly(&mut arch, asset_id, &below, hc);
        let new_len = arch.len();
        let ghost arch_v = arch@;
        proof {
            assert(medium_shaped(v0));
            assert forall|i: int| 0 <= i < arch0.len() implies hourly_shape(#[trigger] arch0[i]) by {
                assert(v0.medium.dom().contains(asset_id@));
                assert(arch0[i] == v0.medium[asset_id@][i]);
            }
            assert(live_shaped(v0));
            assert(store_shaped(v0.live[TimeBucket::OneMinute]));
            assert(v0.live[TimeBucket::OneMinute].dom().contains(asset_id@));
            lemma_filter_shaped(series_of(v0, TimeBucket::OneMinute, asset_id@), |b: PriceBucket| b.bucket_index < ci);
            lemma_compressed_shaped(arch0, arch_v, asset_id@, below@, hc);
        }
        upsert(&mut self.medium_archive, asset_id, arch);
        proof {
            assert(archive_view(self.medium_archive@) =~= v0.medium.insert(asset_id@, arch_v));
            self.lemma_view_live(TimeBucket::FiveMinute);
            self.lemma_view_live(TimeBucket::FifteenMinute);
            self.lemma_view_live(TimeBucket::OneHour);
            self.lemma_view_live(TimeBucket::SixHour);
            self.lemma_view_live(TimeBucket::OneDay);
            assert forall|bt: TimeBucket, a: Seq<char>| #[trigger] v0.live[bt].dom().contains(a) implies sorted_idx(v0.live[bt][a]) by {}
            assert forall|a: Seq<char>| #[trigger] live_view(self.live_1m@).dom().contains(a) implies sorted_idx(live_view(self.live_1m@)[a]) by {
                assert(v0.live[TimeBucket::OneMinute].dom().contains(a));
            }
            assert forall|a: Seq<char>| #[trigger] live_view(self.live_5m@).dom().contains(a) implies sorted_idx(live_view(self.live_5m@)[a]) by {
                assert(v0.live[TimeBucket::FiveMinute].dom().contains(a));
            }
            assert forall|a: Seq<char>| #[trigger] live_view(self.live_15m@).dom().contains(a) implies sorted_idx(live_view(self.live_15m@)[a]) by {
                assert(v0.live[TimeBucket::FifteenMinute].dom().contains(a));
            }
            assert forall|a: Seq<char>| #[trigger] live_view(self.live_1h@).dom().contains(a) implies sorted_idx(live_view(self.live_1h@)[a]) by {
                assert(v0.live[TimeBucket::OneHour].dom().contains(a));
            }
            assert forall|a: Seq<char>| #[trigger] live_view(self.live_6h@).dom().contains(a) implies sorted_idx(live_view(self.live_6h@)[a]) by {
                assert(v0.live[TimeBucket::SixHour].dom().contains(a));
            }
            assert forall|a: Seq<char>| #[trigger] live_view(self.live_1d@).dom().contains(a) implies sorted_idx(live_view(self.live_1d@)[a]) by {
                assert(v0.live[TimeBucket::OneDay].dom().contains(a));
            }
        }
        prune_asset(&mut self.live_1m, asset_id, hc / 60);
        prune_asset(&mut self.live_5m, asset_id, cutoff / 300);
        prune_asset(&mut self.live_15m, asset_id, cutoff / 900);
        prune_asset(&mut self.live_1h, asset_id, cutoff / 3600);
        prune_asset(&mut self.live_6h, asset_id, cutoff / 21600);
        prune_asset(&mut self.live_1d, asset_id, cutoff / 86400);
        let after = match find_key(&self.live_1m, asset_id) {
            Some(i) => self.live_1m[i].1.len(),
            None => 0,
        };
        let ghost v1 = self@;
        proof {
            reveal_with_fuel(Seq::<_>::filter, 1);
            assert forall|bt: TimeBucket| #[trigger] v1.live[bt] == pruned_store(v0.live[bt], asset_id@, live_cut(bt, cutoff)) by {
                self.lemma_view_live(bt);
            }
            assert forall|bt: TimeBucket| #[trigger] series_of(v1, bt, asset_id@) == live_kept(series_of(v0, bt, asset_id@), live_cut(bt, cutoff)) by {
                assert(v1.live[bt] == pruned_store(v0.live[bt], asset_id@, live_cut(bt, cutoff)));
            }
            assert forall|a: Seq<char>| a != asset_id@ implies #[trigger] asset_untouched(v0, v1, a) by {
                assert forall|bt: TimeBucket| #[trigger] series_of(v1, bt, a) == series_of(v0, bt, a) by {
                    assert(v1.live[bt] == pruned_store(v0.live[bt], asset_id@, live_cut(bt, cutoff)));
                }
            }
            assert forall|bt: TimeBucket| #[trigger] v1.live[bt].dom() == v0.live[bt].dom() by {
                assert(v1.live[bt] == pruned_store(v0.live[bt], asset_id@, live_cut(bt, cutoff)));
                assert(v1.live[bt].dom() =~= v0.live[bt].dom());
            }
            assert(v1.medium == v0.medium.insert(asset_id@, arch_v));
            assert forall|bt: TimeBucket, a: Seq<char>| #[trigger] v1.live[bt].dom().contains(a) implies sorted_idx(v1.live[bt][a]) by {
                self.lemma_view_live(bt);
            }
            assert forall|a: Seq<char>| #[trigger] v1.medium.dom().contains(a) implies sorted_ws(v1.medium[a]) by {
                if a != asset_id@ {
                    assert(v0.medium.dom().contains(a));
                }
            }
            assert forall|a: Seq<char>| #[trigger] v1.historical.dom().contains(a) implies sorted_ws(v1.historical[a]) by {
                assert(v0.historical.dom().contains(a));
            }
            assert(view_ordered(v1));
            assert forall|a: Seq<char>, i: int| v1.medium.dom().contains(a) && 0 <= i < v1.medium[a].len() implies hourly_shape(
                #[trigger] v1.medium[a][i],
            ) by {
                if a != asset_id@ {
                    assert(v0.medium.dom().contains(a));
                    assert(v1.medium[a] == v0.medium[a]);
                } else {
                    assert(v1.medium[a] == arch_v);
                }
            }
            assert(medium_shaped(v1));
            assert(cache_consistent(v0));
            assert(v1.analytics == v0.analytics);
            assert(live_shaped(v0));
            assert forall|bt: TimeBucket| #[trigger] store_shaped(v1.live[bt]) by {
                assert(store_shaped(v0.live[bt]));
                assert(v1.live[bt] == pruned_store(v0.live[bt], asset_id@, live_cut(bt, cutoff)));
                assert forall|a: Seq<char>| #[trigger] v1.live[bt].dom().contains(a) implies series_shaped(v1.live[bt][a]) by {
                    assert(v0.live[bt].dom().contains(a));
                    if a == asset_id@ {
                        lemma_filter_shaped(v0.live[bt][a], |b: PriceBucket| b.bucket_index >= live_cut(bt, cutoff));
                    }
                }
            }
            assert(before == series_of(v0, TimeBucket::OneMinute, asset_id@).len());
            assert(after == series_of(v1, TimeBucket::OneMinute, asset_id@).len());
            series_of(v0, TimeBucket::OneMinute, asset_id@).lemma_filter_len(|b: PriceBucket| b.bucket_index >= hc / 60);
        }
        let created: u32 = if new_len - old_len > 4_294_967_295usize { u32::MAX } else { (new_len - old_len) as u32 };
        let pruned: u32 = if before - after > 4_294_967_295usize { u32::MAX } else { (before - after) as u32 };
        (created, pruned)
    }
}

impl PriceHistoryManager {
    /// Compress the hourly archived buckets of `asset_id` that start before `cutoff`
    /// into daily buckets and drop them from the hourly archive.  Returns the number
    /// of daily buckets created.
    fn compress_medium_to_historical(&mut self, asset_id: &str, cutoff: u64) -> (r: u32)
        requires
            old(self).wf(),
        ensures
            final(self).wf(),
            same_frame(old(self)@, final(self)@),
            final(self)@.last_archival_run == old(self)@.last_archival_run,
            medium_archived(old(self)@, final(self)@, asset_id@, cutoff),
            forall|a: Seq<char>| a != asset_id@ ==> #[trigger] asset_untouched(old(self)@, final(self)@, a),
            archive_series(final(self)@.historical, asset_id@).len() >= archive_series(
                old(self)@.historical,
                asset_id@,
            ).len(),
            r == sat_u32(
                archive_series(final(self)@.historical, asset_id@).len() - archive_series(
                    old(self)@.historical,
                    asset_id@,
                ).len(),
            ),
    {
        let ghost v0 = self@;
        let below = match find_key(&self.medium_archive, asset_id) {
            Some(i) => select_archived(&self.medium_archive[i].1, ArchivedSel::Below(cutoff)),
            None => {
                proof {
                    reveal_with_fuel(Seq::<_>::filter, 1);
                    assert forall|a: Seq<char>| #[trigger] asset_untouched(v0, v0, a) by {}
                }
                return 0;
            },
        };
        proof {
            assert((|a: ArchivedBucket| archived_selected(ArchivedSel::Below(cutoff), a)) =~= (|a: ArchivedBucket|
                a.window_start < cutoff));
            assert(below@ == archive_below(archive_series(v0.medium, asset_id@), cutoff));
        }
        if below.len() == 0 {
            proof {
                assert forall|a: Seq<char>| #[trigger] asset_untouched(v0, v0, a) by {}
            }
            return 0;
        }
        proof {
            assert(view_ordered(v0));
            if v0.historical.dom().contains(asset_id@) {
                assert(sorted_ws(v0.historical[asset_id@]));
            }
            assert(v0.medium.dom().contains(asset_id@));
            assert(sorted_ws(v0.medium[asset_id@]));
        }
        let mut hist = take_archive(&mut self.historical_archive, asset_id);
        let old_len = hist.len();
        compress_daily(&mut hist, asset_id, &below, cutoff);
        let new_len = hist.len();
        let ghost hist_v = hist@;
        upsert(&mut self.historical_archive, asset_id, hist);
        let med = take_archive(&mut self.medium_archive, asset_id);
        let kept = select_archived(&med, ArchivedSel::From(cutoff));
        let ghost kept_v = kept@;
        proof {
            assert((|a: ArchivedBucket| archived_selected(ArchivedSel::From(cutoff), a)) =~= (|a: ArchivedBucket|
                a.window_start >= cutoff));
            assert(kept_v == archive_kept(v0.medium[asset_id@], cutoff));
            lemma_filter_sorted_ws(v0.medium[asset_id@], |a: ArchivedBucket| a.window_start >= cutoff);
            assert(medium_shaped(v0));
            assert forall|i: int| 0 <= i < v0.medium[asset_id@].len() implies hourly_shape(#[trigger] v0.medium[asset_id@][i]) by {}
            lemma_kept_shaped(v0.medium[asset_id@], cutoff);
        }
        upsert(&mut self.medium_archive, asset_id, kept);
        let ghost v1 = self@;
        proof {
            assert(archive_view(self.historical_archive@) =~= v0.historical.insert(asset_id@, hist_v));
            assert(archive_view(self.medium_archive@) =~= v0.medium.insert(asset_id@, kept_v));
            assert forall|bt: TimeBucket| #[trigger] self.store_of(bt) == old(self).store_of(bt) by {}
            assert(v1.live =~= v0.live);
            assert forall|a: Seq<char>| a != asset_id@ implies #[trigger] asset_untouched(v0, v1, a) by {}
            assert forall|a: Seq<char>| #[trigger] v1.medium.dom().contains(a) implies sorted_ws(v1.medium[a]) by {
                if a != asset_id@ {
                    assert(v0.medium.dom().contains(a));
                }
            }
            assert forall|a: Seq<char>| #[trigger] v1.historical.dom().contains(a) implies sorted_ws(v1.historical[a]) by {
                if a != asset_id@ {
                    assert(v0.historical.dom().contains(a));
                }
            }
            assert forall|bt: TimeBucket, a: Seq<char>| #[trigger] v1.live[bt].dom().contains(a) implies sorted_idx(v1.live[bt][a]) by {
                assert(v0.live[bt].dom().contains(a));
            }
            assert(view_ordered(v1));
            assert forall|a: Seq<char>, i: int| v1.medium.dom().contains(a) && 0 <= i < v1.medium[a].len() implies hourly_shape(
                #[trigger] v1.medium[a][i],
            ) by {
                if a != asset_id@ {
                    assert(v0.medium.dom().contains(a));
                    assert(v1.medium[a] == v0.medium[a]);
                } else {
                    assert(v1.medium[a] == kept_v);
                }
            }
            assert(medium_shaped(v1));
            assert(cache_consistent(v0));
            assert(v1.analytics == v0.analytics);
        }
        if new_len - old_len > 4_294_967_295usize { u32::MAX } else { (new_len - old_len) as u32 }
    }
}

/// Sum of `f` over the elements of `k`.
pub open spec fn sum_over(k: Seq<Seq<char>>, f: spec_fn(Seq<char>) -> int) -> int
    decreases k.len(),
{
    if k.len() == 0 {
        0
    } else {
        sum_over(k.drop_last(), f) + f(k.last())
    }
}

/// Hourly buckets gained by each asset.
pub open spec fn medium_gain(v0: HistoryView, v1: HistoryView) -> spec_fn(Seq<char>) -> int {
    |a: Seq<char>| archive_series(v1.medium, a).len() - archive_series(v0.medium, a).len()
}

/// One-minute buckets lost by each asset.
pub open spec fn live_loss(v0: HistoryView, v1: HistoryView) -> spec_fn(Seq<char>) -> int {
    |a: Seq<char>| series_of(v0, TimeBucket::OneMinute, a).len() - series_of(v1, TimeBucket::OneMinute, a).len()
}

/// Daily buckets gained by each asset.
pub open spec fn historical_gain(v0: HistoryView, v1: HistoryView) -> spec_fn(Seq<char>) -> int {
    |a: Seq<char>| archive_series(v1.historical, a).len() - archive_series(v0.historical, a).len()
}

/// The first archival step: every asset with live data is compressed.
pub open spec fn live_step(v0: HistoryView, v1: HistoryView, cutoff: u64) -> bool {
    &&& same_frame(v0, v1)
    &&& v1.last_archival_run == v0.last_archival_run
    &&& forall|a: Seq<char>| v0.live[TimeBucket::OneMinute].dom().contains(a) ==> #[trigger] live_archived(v0, v1, a, cutoff)
    &&& forall|a: Seq<char>| !v0.live[TimeBucket::OneMinute].dom().contains(a) ==> #[trigger] asset_untouched(v0, v1, a)
}

/// The second archival step: every asset with an hourly archive is compressed.
pub open spec fn medium_step(v1: HistoryView, v2: HistoryView, cutoff: u64) -> bool {
    &&& same_frame(v1, v2)
    &&& v2.last_archival_run == v1.last_archival_run
    &&& forall|a: Seq<char>| v1.medium.dom().contains(a) ==> #[trigger] medium_archived(v1, v2, a, cutoff)
    &&& forall|a: Seq<char>| !v1.medium.dom().contains(a) ==> #[trigger] asset_untouched(v1, v2, a)
}

/// An archival run at `now` leads from `v0` through `v1` to `v2` (before the run
/// time is recorded), with `k1` and `k2` listing the assets of each step.  Live data
/// more than 30 days old goes to the hourly tier, hourly data more than 90 days old
/// to the daily tier; the statistics count what was created and removed.
pub open spec fn archival_run(
    v0: HistoryView,
    v1: HistoryView,
    v2: HistoryView,
    k1: Seq<Seq<char>>,
    k2: Seq<Seq<char>>,
    now: u64,
    stats: ArchivalStats,
) -> bool {
    let c1 = sat_sub(now, TIER_RECENT_SECS);
    let c2 = sat_sub(now, TIER_MEDIUM_SECS);
    &&& enumerates(k1, v0.live[TimeBucket::OneMinute].dom())
    &&& enumerates(k2, v1.medium.dom())
    &&& live_step(v0, v1, c1)
    &&& medium_step(v1, v2, c2)
    &&& stats.medium_buckets_created == sat_u32(sum_over(k1, medium_gain(v0, v1)))
    &&& stats.live_entries_pruned == sat_u32(sum_over(k1, live_loss(v0, v1)))
    &&& stats.historical_buckets_created == sat_u32(sum_over(k2, historical_gain(v1, v2)))
    &&& stats.completed_at == now
}

/// An archival run at `now` turns `v0` into `v`, with the given statistics.
pub open spec fn archival_result(v0: HistoryView, v: HistoryView, now: u64, stats: ArchivalStats) -> bool {
    exists|v1: HistoryView, v2: HistoryView, k1: Seq<Seq<char>>, k2: Seq<Seq<char>>|
        #[trigger] archival_run(v0, v1, v2, k1, k2, now, stats) && v == (HistoryView { last_archival_run: now, ..v2 })
}

proof fn lemma_untouched_trans(v0: HistoryView, v1: HistoryView, v2: HistoryView, a: Seq<char>)
    requires
        asset_untouched(v0, v1, a),
        asset_untouched(v1, v2, a),
    ensures
        asset_untouched(v0, v2, a),
{
    assert forall|bt: TimeBucket| #[trigger] series_of(v2, bt, a) == series_of(v0, bt, a) by {
        assert(series_of(v2, bt, a) == series_of(v1, bt, a));
        assert(series_of(v1, bt, a) == series_of(v0, bt, a));
    }
}

proof fn lemma_live_archived_after(v0: HistoryView, v1: HistoryView, v2: HistoryView, a: Seq<char>, c: u64)
    requires
        live_archived(v0, v1, a, c),
        asset_untouched(v1, v2, a),
    ensures
        live_archived(v0, v2, a, c),
{
    let below = live_below(series_of(v0, TimeBucket::OneMinute, a), live_cut(TimeBucket::OneMinute, c));
    if below.len() == 0 {
        lemma_untouched_trans(v0, v1, v2, a);
    } else {
        assert forall|bt: TimeBucket| #[trigger] series_of(v2, bt, a) == live_kept(series_of(v0, bt, a), live_cut(bt, c)) by {
            assert(series_of(v2, bt, a) == series_of(v1, bt, a));
            assert(series_of(v1, bt, a) == live_kept(series_of(v0, bt, a), live_cut(bt, c)));
        }
        assert(v2.medium[a] == archive_series(v2.medium, a));
    }
}

proof fn lemma_live_archived_before(v0: HistoryView, v1: HistoryView, v2: HistoryView, a: Seq<char>, c: u64)
    requires
        asset_untouched(v0, v1, a),
        live_archived(v1, v2, a, c),
    ensures
        live_archived(v0, v2, a, c),
{
    assert(series_of(v1, TimeBucket::OneMinute, a) == series_of(v0, TimeBucket::OneMinute, a));
    let below = live_below(series_of(v0, TimeBucket::OneMinute, a), live_cut(TimeBucket::OneMinute, c));
    if below.len() == 0 {
        lemma_untouched_trans(v0, v1, v2, a);
    } else {
        assert forall|bt: TimeBucket| #[trigger] series_of(v2, bt, a) == live_kept(series_of(v0, bt, a), live_cut(bt, c)) by {
            assert(series_of(v1, bt, a) == series_of(v0, bt, a));
            assert(series_of(v2, bt, a) == live_kept(series_of(v1, bt, a), live_cut(bt, c)));
        }
    }
}

proof fn lemma_medium_archived_after(v0: HistoryView, v1: HistoryView, v2: HistoryView, a: Seq<char>, c: u64)
    requires
        medium_archived(v0, v1, a, c),
        asset_untouched(v1, v2, a),
    ensures
        medium_archived(v0, v2, a, c),
{
    let below = archive_below(archive_series(v0.medium, a), c);
    if below.len() == 0 {
        lemma_untouched_trans(v0, v1, v2, a);
    } else {
        assert forall|bt: TimeBucket| #[trigger] series_of(v2, bt, a) == series_of(v0, bt, a) by {
            assert(series_of(v2, bt, a) == series_of(v1, bt, a));
            assert(series_of(v1, bt, a) == series_of(v0, bt, a));
        }
        assert(v2.medium[a] == archive_series(v2.medium, a));
        assert(v2.historical[a] == archive_series(v2.historical, a));
    }
}

proof fn lemma_medium_archived_before(v0: HistoryView, v1: HistoryView, v2: HistoryView, a: Seq<char>, c: u64)
    requires
        asset_untouched(v0, v1, a),
        medium_archived(v1, v2, a, c),
    ensures
        medium_archived(v0, v2, a, c),
{
    let below = archive_below(archive_series(v0.medium, a), c);
    if below.len() == 0 {
        lemma_untouched_trans(v0, v1, v2, a);
    } else {
        assert forall|bt: TimeBucket| #[trigger] series_of(v2, bt, a) == series_of(v0, bt, a) by {
            assert(series_of(v1, bt, a) == series_of(v0, bt, a));
            assert(series_of(v2, bt, a) == series_of(v1, bt, a));
        }
        assert(v1.medium[a] == archive_series(v1.medium, a));
        assert(v0.medium[a] == archive_series(v0.medium, a));
    }
}

proof fn lemma_sum_over_congr(k: Seq<Seq<char>>, f: spec_fn(Seq<char>) -> int, g: spec_fn(Seq<char>) -> int)
    requires
        forall|a: Seq<char>| k.contains(a) ==> f(a) == g(a),
    ensures
        sum_over(k, f) == sum_over(k, g),
    decreases k.len(),
{
    if k.len() > 0 {
        assert forall|a: Seq<char>| k.drop_last().contains(a) implies f(a) == g(a) by {
            let j = choose|j: int| 0 <= j < k.drop_last().len() && k.drop_last()[j] == a;
            assert(k[j] == a);
            assert(k.contains(a));
        }
        lemma_sum_over_congr(k.drop_last(), f, g);
        assert(k.contains(k.last()));
    }
}

proof fn lemma_sat_u32_add(s: int, d: int)
    requires
        s >= 0,
        d >= 0,
    ensures
        sat_u32(s + d) == sat_u32(sat_u32(s) + sat_u32(d)),
{
}

impl PriceHistoryManager {
    /// Run one archival pass at time `now`: live data more than 30 days old is
    /// compressed into hourly buckets, hourly buckets more than 90 days old into
    /// daily buckets, and `now` is recorded as the time of the last run.
    pub fn run_archival_at(&mut self, now: u64) -> (r: Result<ArchivalStats, PriceHistoryError>)
        requires
            old(self).wf(),
        ensures
            final(self).wf(),
            r matches Ok(stats) && archival_result(old(self)@, final(self)@, now, stats),
    {
        let c1 = now.saturating_sub(TIER_RECENT_SECS);
        let c2 = now.saturating_sub(TIER_MEDIUM_SECS);
        let mut medium_created: u32 = 0;
        let mut pruned: u32 = 0;
        let mut historical_created: u32 = 0;
        let ghost v0 = self@;
        proof {
            self.lemma_view_live(TimeBucket::OneMinute);
        }
        let keys1 = keys_of(&self.live_1m);
        let ghost k1 = keys1@.map_values(|s: String| s@);
        proof {
            assert(enumerates(k1, v0.live[TimeBucket::OneMinute].dom()));
            assert(k1.take(0) =~= Seq::<Seq<char>>::empty());
            assert forall|a: Seq<char>| #[trigger] asset_untouched(v0, v0, a) by {}
        }
        let mut k: usize = 0;
        while k < keys1.len()
            invariant
                self.wf(),
                k <= keys1@.len(),
                k1 == keys1@.map_values(|s: String| s@),
                enumerates(k1, v0.live[TimeBucket::OneMinute].dom()),
                same_frame(v0, self@),
                self@.last_archival_run == v0.last_archival_run,
                forall|a: Seq<char>| k1.take(k as int).contains(a) ==> #[trigger] live_archived(v0, self@, a, c1),
                forall|a: Seq<char>| !k1.take(k as int).contains(a) ==> #[trigger] asset_untouched(v0, self@, a),
                forall|a: Seq<char>| k1.take(k as int).contains(a) ==> (#[trigger] medium_gain(v0, self@)(a)) >= 0,
                forall|a: Seq<char>| k1.take(k as int).contains(a) ==> (#[trigger] live_loss(v0, self@)(a)) >= 0,
                sum_over(k1.take(k as int), medium_gain(v0, self@)) >= 0,
                sum_over(k1.take(k as int), live_loss(v0, self@)) >= 0,
                medium_created == sat_u32(sum_over(k1.take(k as int), medium_gain(v0, self@))),
                pruned == sat_u32(sum_over(k1.take(k as int), live_loss(v0, self@))),
            decreases keys1@.len() - k,
        {
            let ghost cur = self@;
            let ghost x = k1[k as int];
            let ghost t0 = k1.take(k as int);
            let ghost t1 = k1.take(k + 1);
            proof {
                assert(keys1@[k as int]@ == x);
                assert(!t0.contains(x)) by {
                    if t0.contains(x) {
                        let j = choose|j: int| 0 <= j < k as int && t0[j] == x;
                        assert(k1[j] == k1[k as int]);
                    }
                }
                assert(t1.drop_last() =~= t0);
                assert(t1.last() == x);
            }
            let (c, p) = self.compress_live_to_medium(keys1[k].as_str(), c1);
            let ghost nxt = self@;
            proof {
                assert(asset_untouched(v0, cur, x));
                lemma_live_archived_before(v0, cur, nxt, x, c1);
                assert forall|a: Seq<char>| t1.contains(a) implies #[trigger] live_archived(v0, nxt, a, c1) by {
                    if a != x {
                        let j = choose|j: int| 0 <= j < k + 1 && t1[j] == a;
                        assert(t0[j] == a);
                        assert(t0.contains(a));
                        assert(asset_untouched(cur, nxt, a));
                        lemma_live_archived_after(v0, cur, nxt, a, c1);
                    }
                }
                assert forall|a: Seq<char>| !t1.contains(a) implies #[trigger] asset_untouched(v0, nxt, a) by {
                    assert(t1[k as int] == x);
                    if t0.contains(a) {
                        let j = choose|j: int| 0 <= j < k as int && t0[j] == a;
                        assert(t1[j] == a);
                    }
                    assert(asset_untouched(cur, nxt, a));
                    lemma_untouched_trans(v0, cur, nxt, a);
                }
                assert forall|a: Seq<char>| t0.contains(a) implies medium_gain(v0, nxt)(a) == medium_gain(v0, cur)(a)
                    && live_loss(v0, nxt)(a) == live_loss(v0, cur)(a) by {
                    assert(a != x);
                    assert(asset_untouched(cur, nxt, a));
                    assert(series_of(nxt, TimeBucket::OneMinute, a) == series_of(cur, TimeBucket::OneMinute, a));
                }
                lemma_sum_over_congr(t0, medium_gain(v0, nxt), medium_gain(v0, cur));
                lemma_sum_over_congr(t0, live_loss(v0, nxt), live_loss(v0, cur));
                assert(series_of(cur, TimeBucket::OneMinute, x) == series_of(v0, TimeBucket::OneMinute, x));
                assert(medium_gain(v0, nxt)(x) == medium_gain(cur, nxt)(x));
                assert(live_loss(v0, nxt)(x) == live_loss(cur, nxt)(x));
                assert forall|a: Seq<char>| t1.contains(a) implies (#[trigger] medium_gain(v0, nxt)(a)) >= 0 by {
                    if a != x {
                        let j = choose|j: int| 0 <= j < k + 1 && t1[j] == a;
                        assert(t0[j] == a);
                        assert(t0.contains(a));
                        assert(medium_gain(v0, cur)(a) >= 0);
                    }
                }
                assert forall|a: Seq<char>| t1.contains(a) implies (#[trigger] live_loss(v0, nxt)(a)) >= 0 by {
                    if a != x {
                        let j = choose|j: int| 0 <= j < k + 1 && t1[j] == a;
                        assert(t0[j] == a);
                        assert(t0.contains(a));
                        assert(live_loss(v0, cur)(a) >= 0);
                    }
                }
                lemma_sat_u32_add(sum_over(t0, medium_gain(v0, nxt)), medium_gain(v0, nxt)(x));
                lemma_sat_u32_add(sum_over(t0, live_loss(v0, nxt)), live_loss(v0, nxt)(x));
            }
            medium_created = medium_created.saturating_add(c);
            pruned = pruned.saturating_add(p);
            k = k + 1;
        }
        let ghost v1 = self@;
        proof {
            assert(k1.take(k1.len() as int) =~= k1);
            assert(live_step(v0, v1, c1));
        }
        let keys2 = keys_of(&self.medium_archive);
        let ghost k2 = keys2@.map_values(|s: String| s@);
        proof {
            assert(enumerates(k2, v1.medium.dom()));
            assert(k2.take(0) =~= Seq::<Seq<char>>::empty());
            assert forall|a: Seq<char>| #[trigger] asset_untouched(v1, v1, a) by {}
        }
        let mut k: usize = 0;
        while k < keys2.len()
            invariant
                self.wf(),
                k <= keys2@.len(),
                k2 == keys2@.map_values(|s: String| s@),
                enumerates(k2, v1.medium.dom()),
                same_frame(v1, self@),
                self@.last_archival_run == v1.last_archival_run,
                forall|a: Seq<char>| k2.take(k as int).contains(a) ==> #[trigger] medium_archived(v1, self@, a, c2),
                forall|a: Seq<char>| !k2.take(k as int).contains(a) ==> #[trigger] asset_untouched(v1, self@, a),
                forall|a: Seq<char>| k2.take(k as int).contains(a) ==> (#[trigger] historical_gain(v1, self@)(a)) >= 0,
                sum_over(k2.take(k as int), historical_gain(v1, self@)) >= 0,
                historical_created == sat_u32(sum_over(k2.take(k as int), historical_gain(v1, self@))),
            decreases keys2@.len() - k,
        {
            let ghost cur = self@;
            let ghost x = k2[k as int];
            let ghost t0 = k2.take(k as int);
            let ghost t1 = k2.take(k + 1);
            proof {
                assert(keys2@[k as int]@ == x);
                assert(!t0.contains(x)) by {
                    if t0.contains(x) {
                        let j = choose|j: int| 0 <= j < k as int && t0[j] == x;
                        assert(k2[j] == k2[k as int]);
                    }
                }
                assert(t1.drop_last() =~= t0);
                assert(t1.last() == x);
            }
            let h = self.compress_medium_to_historical(keys2[k].as_str(), c2);
            let ghost nxt = self@;
            proof {
                assert(asset_untouched(v1, cur, x));
                lemma_medium_archived_before(v1, cur, nxt, x, c2);
                assert forall|a: Seq<char>| t1.contains(a) implies #[trigger] medium_archived(v1, nxt, a, c2) by {
                    if a != x {
                        let j = choose|j: int| 0 <= j < k + 1 && t1[j] == a;
                        assert(t0[j] == a);
                        assert(t0.contains(a));
                        assert(asset_untouched(cur, nxt, a));
                        lemma_medium_archived_after(v1, cur, nxt, a, c2);
                    }
                }
                assert forall|a: Seq<char>| !t1.contains(a) implies #[trigger] asset_untouched(v1, nxt, a) by {
                    assert(t1[k as int] == x);
                    if t0.contains(a) {
                        let j = choose|j: int| 0 <= j < k as int && t0[j] == a;
                        assert(t1[j] == a);
                    }
                    assert(asset_untouched(cur, nxt, a));
                    lemma_untouched_trans(v1, cur, nxt, a);
                }
                assert forall|a: Seq<char>| t0.contains(a) implies historical_gain(v1, nxt)(a) == historical_gain(v1, cur)(a) by {
                    assert(a != x);
                    assert(asset_untouched(cur, nxt, a));
                }
                lemma_sum_over_congr(t0, historical_gain(v1, nxt), historical_gain(v1, cur));
                assert(historical_gain(v1, nxt)(x) == historical_gain(cur, nxt)(x));
                assert forall|a: Seq<char>| t1.contains(a) implies (#[trigger] historical_gain(v1, nxt)(a)) >= 0 by {
                    if a != x {
                        let j = choose|j: int| 0 <= j < k + 1 && t1[j] == a;
                        assert(t0[j] == a);
                        assert(t0.contains(a));
                        assert(historical_gain(v1, cur)(a) >= 0);
                    }
                }
                lemma_sat_u32_add(sum_over(t0, historical_gain(v1, nxt)), historical_gain(v1, nxt)(x));
            }
            historical_created = historical_created.saturating_add(h);
            k = k + 1;
        }
        let ghost v2 = self@;
        proof {
            assert(k2.take(k2.len() as int) =~= k2);
            assert(medium_step(v1, v2, c2));
        }
        self.last_archival_run = now;
        proof {
            assert(self@.live =~= v2.live);
            assert(self@ == (HistoryView { last_archival_run: now, ..v2 }));
            assert(view_ordered(self@));
        }
        let stats = ArchivalStats {
            medium_buckets_created: medium_created,
            historical_buckets_created: historical_created,
            live_entries_pruned: pruned,
            completed_at: now,
        };
        proof {
            assert(archival_run(v0, v1, v2, k1, k2, now, stats));
            assert(self@ == (HistoryView { last_archival_run: now, ..v2 }));
            assert(archival_result(v0, self@, now, stats));
        }
        Ok(stats)
    }
}

} // verus!
