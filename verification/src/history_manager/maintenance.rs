//! Storing prices, pruning old data, reading the archives and exporting to CSV.

use vstd::prelude::*;
use super::analytics::sat_sub;
use super::archival::{archival_result, pruned_store};
use super::query::{archive_range, archive_series, history_in_range, page};
use super::{cache_consistent, hourly_shape, live_shaped, live_view, meta_of, medium_shaped, store_shaped, record_all_fits, recorded, view_ordered, HistoryView, PriceHistoryManager};
use crate::bucket_series::{lemma_filter_shaped, lemma_filter_sorted_idx, series_shaped, sorted_idx, sorted_ws};
use crate::compaction::{archived_selected, bucket_selected, live_kept, select_archived, select_buckets, ArchivedSel, BucketSel};
use crate::keyed::{distinct_keys, find_key, key_views, keys_of, lemma_update, to_map};
use crate::price_history::{
    bucket_secs, ArchivedBucket, AssetMetadata, PriceBucket, PriceHistoryEntry, PriceHistoryError, TimeBucket,
    MAX_CLOCK_SKEW_SECS,
};
use crate::text::{dec_nat, u64_to_dec};

verus! {

/// Whether an archival pass is due at `now`.
pub open spec fn archival_due(v: HistoryView, now: u64) -> bool {
    v.config.auto_archive_on_store && now >= v.last_archival_run && now - v.last_archival_run
        >= v.config.archival_interval_secs
}

/// Outcome of storing `entry` at time `now`.
pub open spec fn store_outcome(
    v0: HistoryView,
    v: HistoryView,
    entry: PriceHistoryEntry,
    now: u64,
    r: Result<(), PriceHistoryError>,
) -> bool {
    if entry.price == 0 {
        r == Err::<(), PriceHistoryError>(PriceHistoryError::InvalidPrice) && v == v0
    } else if entry.timestamp > now + MAX_CLOCK_SKEW_SECS {
        r == Err::<(), PriceHistoryError>(PriceHistoryError::InvalidTimestamp) && v == v0
    } else {
        &&& r == Ok::<(), PriceHistoryError>(())
        &&& exists|v1: HistoryView| #[trigger]
            recorded(v0, v1, entry.asset_id@, entry.price, entry.timestamp, entry.volume, now) && if archival_due(
                v1,
                now,
            ) {
                exists|stats| #[trigger] archival_result(v1, v, now, stats)
            } else {
                v == v1
            }
    }
}

/// Every live store after keeping only the buckets at or after `cutoff`.
pub open spec fn cleaned(v0: HistoryView, v: HistoryView, cutoff: u64) -> bool {
    &&& forall|bt: TimeBucket|
        #[trigger] v.live[bt] == v0.live[bt].map_values(|s: Seq<PriceBucket>| live_kept(s, cutoff / bucket_secs(bt)))
    &&& v.metadata == v0.metadata
    &&& v.analytics == v0.analytics
    &&& v.medium == v0.medium
    &&& v.historical == v0.historical
    &&& v.config == v0.config
    &&& v.last_archival_run == v0.last_archival_run
}

/// Keep only the buckets with index at least `ci` in every series of the store.
fn prune_store(store: &mut Vec<(String, Vec<PriceBucket>)>, ci: u64)
    requires
        distinct_keys(old(store)@),
        forall|a: Seq<char>| #[trigger] live_view(old(store)@).dom().contains(a) ==> sorted_idx(live_view(old(store)@)[a]),
    ensures
        distinct_keys(final(store)@),
        forall|a: Seq<char>| #[trigger] live_view(final(store)@).dom().contains(a) ==> sorted_idx(live_view(final(store)@)[a]),
        live_view(final(store)@) == live_view(old(store)@).map_values(|s: Seq<PriceBucket>| live_kept(s, ci)),
{
    let ghost m0 = live_view(store@);
    proof {
        assert forall|j: int| 0 <= j < store@.len() implies sorted_idx(#[trigger] store@[j].1@) by {
            crate::keyed::lemma_to_map_value(store@, j);
            assert(m0.dom().contains(store@[j].0@));
        }
    }
    let n = store.len();
    let mut i: usize = 0;
    while i < n
        invariant
            n == store@.len(),
            i <= n,
            distinct_keys(store@),
            key_views(store@) == key_views(old(store)@),
            forall|j: int| 0 <= j < i ==> #[trigger] store@[j].1@ == live_kept(old(store)@[j].1@, ci),
            forall|j: int| i <= j < n ==> #[trigger] store@[j] == old(store)@[j],
            forall|j: int| 0 <= j < n ==> sorted_idx(#[trigger] store@[j].1@),
        decreases n - i,
    {
        let ghost s0 = store@;
        let (k, series) = store.remove(i);
        let kept = select_buckets(&series, BucketSel::From(ci));
        proof {
            assert((|b: PriceBucket| bucket_selected(BucketSel::From(ci), b)) =~= (|b: PriceBucket| b.bucket_index >= ci));
            assert(series@ == s0[i as int].1@);
            lemma_filter_sorted_idx(series@, |b: PriceBucket| b.bucket_index >= ci);
            lemma_update(s0, i as int, k, kept);
        }
        store.insert(i, (k, kept));
        proof {
            assert(store@ =~= s0.update(i as int, (k, kept)));
            assert(key_views(store@) =~= key_views(s0));
        }
        i = i + 1;
    }
    proof {
        assert forall|a: Seq<char>| #[trigger] live_view(store@).dom().contains(a) implies sorted_idx(live_view(store@)[a]) by {
            crate::keyed::lemma_to_map_dom(store@, a);
            let j = choose|j: int| 0 <= j < store@.len() && store@[j].0@ == a;
            crate::keyed::lemma_to_map_value(store@, j);
        }
        assert forall|a: Seq<char>| #[trigger] live_view(store@).dom().contains(a) == m0.dom().contains(a) by {
            crate::keyed::lemma_to_map_dom(store@, a);
            crate::keyed::lemma_to_map_dom(old(store)@, a);
            if live_view(store@).dom().contains(a) {
                let j = choose|j: int| 0 <= j < store@.len() && store@[j].0@ == a;
                assert(key_views(store@)[j] == key_views(old(store)@)[j]);
            }
            if m0.dom().contains(a) {
                let j = choose|j: int| 0 <= j < old(store)@.len() && old(store)@[j].0@ == a;
                assert(key_views(store@)[j] == key_views(old(store)@)[j]);
            }
        }
        assert forall|a: Seq<char>| #[trigger] live_view(store@).dom().contains(a) implies live_view(store@)[a] == live_kept(m0[a], ci) by {
            crate::keyed::lemma_to_map_dom(store@, a);
            let j = choose|j: int| 0 <= j < store@.len() && store@[j].0@ == a;
            assert(key_views(store@)[j] == key_views(old(store)@)[j]);
            crate::keyed::lemma_to_map_value(store@, j);
            crate::keyed::lemma_to_map_value(old(store)@, j);
        }
        assert(live_view(store@) =~= m0.map_values(|s: Seq<PriceBucket>| live_kept(s, ci)));
    }
}

impl PriceHistoryManager {
    /// Drop, at every granularity and for every asset, the live buckets that lie
    /// before `now - retention_period` (saturating at 0).
    pub fn cleanup_old_data_at(&mut self, retention_period: u64, now: u64)
        requires
            old(self).wf(),
        ensures
            final(self).wf(),
            cleaned(old(self)@, final(self)@, sat_sub(now, retention_period)),
    {
        let cutoff = now.saturating_sub(retention_period);
        let ghost v0 = self@;
        proof {
            assert(view_ordered(v0));
            assert forall|bt: TimeBucket| #[trigger] v0.live[bt] == live_view(self.store_of(bt)) by {
                self.lemma_view_live(bt);
            }
            assert forall|bt: TimeBucket, a: Seq<char>| #[trigger] v0.live[bt].dom().contains(a) implies sorted_idx(v0.live[bt][a]) by {}
            assert forall|a: Seq<char>| #[trigger] live_view(self.live_1m@).dom().contains(a) implies sorted_idx(live_view(self.live_1m@)[a]) by {
                assert(v0.live[TimeBucket::OneMinute].dom().contains(a));
            }
            assert forall|a: Seq<char>| #[trigger] live_view(self.live_5m@).dom().contains(a) implies sorted_idx(live_view(self.live_5m@)[a]) by {
                assert(v0.live[TimeBucket::FiveMinute].dom().contains(a));
            }
            assert forall|a: Seq<char>| #[trigger] live_view(self.live_15m@).dom().contains(a) implies sorted_idx(live_view(self.live_15m@)[a]) by {
                assert(v0.live[TimeBucket::FifteenMinute].dom().contains(a));
            }
            assert forall|a: Seq<char>| #[trigger] live_view(self.live_1h@).dom().contains(a) implies sorted_idx(live_view(self.live_1h@)[a]) by {
                assert(v0.live[TimeBucket::OneHour].dom().contains(a));
            }
            assert forall|a: Seq<char>| #[trigger] live_view(self.live_6h@).dom().contains(a) implies sorted_idx(live_view(self.live_6h@)[a]) by {
                assert(v0.live[TimeBucket::SixHour].dom().contains(a));
            }
            assert forall|a: Seq<char>| #[trigger] live_view(self.live_1d@).dom().contains(a) implies sorted_idx(live_view(self.live_1d@)[a]) by {
                assert(v0.live[TimeBucket::OneDay].dom().contains(a));
            }
        }
        prune_store(&mut self.live_1m, cutoff / 60);
        prune_store(&mut self.live_5m, cutoff / 300);
        prune_store(&mut self.live_15m, cutoff / 900);
        prune_store(&mut self.live_1h, cutoff / 3600);
        prune_store(&mut self.live_6h, cutoff / 21600);
        prune_store(&mut self.live_1d, cutoff / 86400);
        proof {
            let v1 = self@;
            assert forall|bt: TimeBucket|
                #[trigger] v1.live[bt] == v0.live[bt].map_values(|s: Seq<PriceBucket>| live_kept(s, cutoff / bucket_secs(bt))) by {
                self.lemma_view_live(bt);
            }
            assert forall|bt: TimeBucket, a: Seq<char>| #[trigger] v1.live[bt].dom().contains(a) implies sorted_idx(v1.live[bt][a]) by {
                self.lemma_view_live(bt);
            }
            assert forall|a: Seq<char>| #[trigger] v1.medium.dom().contains(a) implies sorted_ws(v1.medium[a]) by {
                assert(v0.medium.dom().contains(a));
            }
            assert forall|a: Seq<char>| #[trigger] v1.historical.dom().contains(a) implies sorted_ws(v1.historical[a]) by {
                assert(v0.historical.dom().contains(a));
            }
            assert(view_ordered(v1));
            assert(v1.medium == v0.medium);
            assert(medium_shaped(v0));
            assert(live_shaped(v0));
            assert(cache_consistent(v0));
            assert(v1.analytics == v0.analytics);
            assert forall|bt: TimeBucket| #[trigger] store_shaped(v1.live[bt]) by {
                assert(store_shaped(v0.live[bt]));
                assert forall|a: Seq<char>| #[trigger] v1.live[bt].dom().contains(a) implies series_shaped(v1.live[bt][a]) by {
                    assert(v0.live[bt].dom().contains(a));
                    lemma_filter_shaped(v0.live[bt][a], |b: PriceBucket| b.bucket_index >= cutoff / bucket_secs(bt));
                }
            }
        }
    }

    /// Hourly archived buckets of an asset whose window starts in `[start_time, end_time]`.
    pub fn get_medium_archive(&self, asset_id: &str, start_time: u64, end_time: u64) -> (r: Vec<ArchivedBucket>)
        requires
            self.wf(),
        ensures
            r@ == archive_range(archive_series(self@.medium, asset_id@), start_time, end_time),
            forall|i: int| 0 <= i < r@.len() ==> hourly_shape(#[trigger] r@[i]),
            forall|i: int, j: int| 0 <= i < j < r@.len() ==> r@[i].window_start < r@[j].window_start,
    {
        proof {
            assert((|a: ArchivedBucket| archived_selected(ArchivedSel::Range(start_time, end_time), a)) =~= (|a: ArchivedBucket|
                start_time <= a.window_start && a.window_start <= end_time));
            let ser = archive_series(self@.medium, asset_id@);
            let f = |a: ArchivedBucket| start_time <= a.window_start && a.window_start <= end_time;
            assert(medium_shaped(self@));
            assert(view_ordered(self@));
            assert forall|i: int| 0 <= i < ser.filter(f).len() implies hourly_shape(#[trigger] ser.filter(f)[i]) by {
                assert(ser.filter(f).contains(ser.filter(f)[i]));
                ser.lemma_filter_contains_rev(f, ser.filter(f)[i]);
                let k = choose|k: int| 0 <= k < ser.len() && ser[k] == ser.filter(f)[i];
                assert(self@.medium.dom().contains(asset_id@));
                assert(hourly_shape(self@.medium[asset_id@][k]));
            }
            if self@.medium.dom().contains(asset_id@) {
                assert(sorted_ws(ser));
            }
            crate::bucket_series::lemma_filter_sorted_ws(ser, f);
        }
        match find_key(&self.medium_archive, asset_id) {
            Some(i) => select_archived(&self.medium_archive[i].1, ArchivedSel::Range(start_time, end_time)),
            None => {
                proof {
                    reveal_with_fuel(Seq::<_>::filter, 1);
                }
                Vec::new()
            },
        }
    }

    /// Daily archived buckets of an asset whose window starts in `[start_time, end_time]`.
    pub fn get_historical_archive(&self, asset_id: &str, start_time: u64, end_time: u64) -> (r: Vec<ArchivedBucket>)
        requires
            self.wf(),
        ensures
            r@ == archive_range(archive_series(self@.historical, asset_id@), start_time, end_time),
    {
        proof {
            assert((|a: ArchivedBucket| archived_selected(ArchivedSel::Range(start_time, end_time), a)) =~= (|a: ArchivedBucket|
                start_time <= a.window_start && a.window_start <= end_time));
        }
        match find_key(&self.historical_archive, asset_id) {
            Some(i) => select_archived(&self.historical_archive[i].1, ArchivedSel::Range(start_time, end_time)),
            None => {
                proof {
                    reveal_with_fuel(Seq::<_>::filter, 1);
                }
                Vec::new()
            },
        }
    }

    /// Store one price at time `now`.  A zero price is rejected, and so is a
    /// timestamp more than ten minutes ahead of `now` (prices stamped by a source
    /// whose clock runs slightly ahead are accepted).  The price is recorded at
    /// every stored granularity, the asset's metadata is updated, its cached
    /// analytics are dropped, and an archival pass runs when one is due.
    pub fn store_price_at(&mut self, entry: PriceHistoryEntry, now: u64) -> (r: Result<(), PriceHistoryError>)
        requires
            old(self).wf(),
            entry.price != 0 && entry.timestamp <= now + MAX_CLOCK_SKEW_SECS ==> record_all_fits(
                old(self)@,
                entry.asset_id@,
                entry.timestamp,
                entry.volume,
            ),
        ensures
            final(self).wf(),
            store_outcome(old(self)@, final(self)@, entry, now, r),
    {
        if entry.price == 0 {
            return Err(PriceHistoryError::InvalidPrice);
        }
        if entry.timestamp > now.saturating_add(MAX_CLOCK_SKEW_SECS) {
            return Err(PriceHistoryError::InvalidTimestamp);
        }
        let ghost v0 = self@;
        self.record_entry(&entry, now);
        let ghost v1 = self@;
        let due = self.archival_config.auto_archive_on_store && now >= self.last_archival_run && now
            - self.last_archival_run >= self.archival_config.archival_interval_secs;
        if due {
            let r = self.run_archival_at(now);
            proof {
                let stats = r->Ok_0;
                assert(archival_result(v1, self@, now, stats));
            }
        }
        proof {
            assert(recorded(v0, v1, entry.asset_id@, entry.price, entry.timestamp, entry.volume, now));
        }
        Ok(())
    }
}

/// The header line of a CSV export.
pub open spec fn csv_header() -> Seq<char> {
    "timestamp,open,high,low,close,volume,entry_count,bucket_index\n"@
}

/// One CSV line of a bucket.
pub open spec fn csv_row(b: PriceBucket) -> Seq<char> {
    dec_nat(b.first_timestamp as nat) + seq![','] + dec_nat(b.open as nat) + seq![','] + dec_nat(b.high as nat)
        + seq![','] + dec_nat(b.low as nat) + seq![','] + dec_nat(b.close as nat) + seq![','] + dec_nat(
        b.volume as nat,
    ) + seq![','] + dec_nat(b.entry_count as nat) + seq![','] + dec_nat(b.bucket_index as nat) + seq!['\n']
}

/// The CSV lines of a sequence of buckets.
pub open spec fn csv_rows(s: Seq<PriceBucket>) -> Seq<char>
    decreases s.len(),
{
    if s.len() == 0 {
        Seq::empty()
    } else {
        csv_rows(s.drop_last()) + csv_row(s.last())
    }
}

/// The metadata block of a CSV export.
pub open spec fn csv_metadata(m: AssetMetadata) -> Seq<char> {
    "\n# Asset Metadata\n"@ + "asset_id,"@ + m.asset_id@ + ",total_entries,"@ + dec_nat(m.total_entries as nat)
        + ",first_timestamp,"@ + dec_nat(m.first_timestamp as nat) + ",last_timestamp,"@ + dec_nat(
        m.last_timestamp as nat,
    ) + ",current_price,"@ + dec_nat(m.current_price as nat) + seq!['\n']
}

/// A CSV export of the history of `asset` in `[start, end]`: a header, one line per
/// bucket, and the asset's metadata when asked for and known.
pub open spec fn csv_export(
    v: HistoryView,
    asset: Seq<char>,
    bt: TimeBucket,
    start: u64,
    end: u64,
    include_metadata: bool,
) -> Seq<char> {
    csv_header() + csv_rows(page(history_in_range(v, asset, bt, start, end), 0, usize::MAX as int)) + if include_metadata
        && v.metadata.dom().contains(asset) {
        csv_metadata(v.metadata[asset])
    } else {
        Seq::empty()
    }
}

fn csv_row_string(b: &PriceBucket) -> (r: String)
    ensures
        r@ == csv_row(*b),
{
    proof {
        reveal_strlit(",");
        reveal_strlit("\n");
    }
    let mut s = u64_to_dec(b.first_timestamp);
    s.append(",");
    s.append(u64_to_dec(b.open).as_str());
    s.append(",");
    s.append(u64_to_dec(b.high).as_str());
    s.append(",");
    s.append(u64_to_dec(b.low).as_str());
    s.append(",");
    s.append(u64_to_dec(b.close).as_str());
    s.append(",");
    s.append(u64_to_dec(b.volume).as_str());
    s.append(",");
    s.append(u64_to_dec(b.entry_count as u64).as_str());
    s.append(",");
    s.append(u64_to_dec(b.bucket_index).as_str());
    s.append("\n");
    proof {
        assert(s@ =~= csv_row(*b));
    }
    s
}

fn csv_metadata_string(m: &AssetMetadata) -> (r: String)
    ensures
        r@ == csv_metadata(*m),
{
    proof {
        reveal_strlit("\n");
    }
    let mut s = String::from_str("\n# Asset Metadata\n");
    s.append("asset_id,");
    s.append(m.asset_id.as_str());
    s.append(",total_entries,");
    s.append(u64_to_dec(m.total_entries).as_str());
    s.append(",first_timestamp,");
    s.append(u64_to_dec(m.first_timestamp).as_str());
    s.append(",last_timestamp,");
    s.append(u64_to_dec(m.last_timestamp).as_str());
    s.append(",current_price,");
    s.append(u64_to_dec(m.current_price).as_str());
    s.append("\n");
    proof {
        assert(s@ =~= csv_metadata(*m));
    }
    s
}

impl PriceHistoryManager {
    /// CSV export of the history of an asset in `[start_time, end_time]` at the given
    /// granularity, optionally followed by the asset's metadata.
    pub fn export_to_csv(
        &self,
        asset_id: &str,
        bucket_type: TimeBucket,
        start_time: u64,
        end_time: u64,
        include_metadata: bool,
    ) -> (r: Result<String, PriceHistoryError>)
        requires
            self.wf(),
        ensures
            r matches Ok(s) && s@ == csv_export(self@, asset_id@, bucket_type, start_time, end_time, include_metadata),
    {
        let buckets = match self.get_price_history(asset_id, bucket_type, start_time, end_time, None, None) {
            Ok(b) => b,
            Err(e) => return Err(e),
        };
        let mut out = String::from_str("timestamp,open,high,low,close,volume,entry_count,bucket_index\n");
        let ghost head = out@;
        let mut i: usize = 0;
        while i < buckets.len()
            invariant
                i <= buckets@.len(),
                out@ == head + csv_rows(buckets@.take(i as int)),
            decreases buckets@.len() - i,
        {
            let row = csv_row_string(&buckets[i]);
            proof {
                assert(buckets@.take(i + 1).drop_last() =~= buckets@.take(i as int));
            }
            out.append(row.as_str());
            proof {
                assert(out@ =~= head + csv_rows(buckets@.take(i + 1)));
            }
            i = i + 1;
        }
        proof {
            assert(buckets@.take(buckets@.len() as int) =~= buckets@);
        }
        if include_metadata {
            match find_key(&self.asset_metadata, asset_id) {
                Some(j) => {
                    let block = csv_metadata_string(&self.asset_metadata[j].1);
                    out.append(block.as_str());
                },
                None => {},
            }
        }
        proof {
            assert(out@ =~= csv_export(self@, asset_id@, bucket_type, start_time, end_time, include_metadata));
        }
        Ok(out)
    }
}

} // verus!
