//! The decisions of the background indexer: its configuration, the
//! deletion-reconcile cadence, the columns of an index row, how the ingest
//! watermark advances, and which indexed assets are stale.

use vstd::prelude::*;

use crate::album_sync::id_views;
use crate::immich::{taken_at_of, ImmichAsset, ImmichAssetType, MAX_SEARCH_PAGES};
use crate::predicate::contains_id;

verus! {

broadcast use vstd::std_specs::vec::group_vec_axioms;

/// Time between sweeps, in seconds.
pub const DEFAULT_SWEEP_INTERVAL_SECS: u64 = 120;

/// Pages a sweep may walk: the client's ceiling, so a sweep drains its
/// whole `updatedAfter` window.
pub const DEFAULT_MAX_PAGES_PER_SWEEP: u32 = MAX_SEARCH_PAGES;

/// The deletion reconcile runs every this many sweeps (about hourly).
pub const DEFAULT_RECONCILE_EVERY_N_SWEEPS: u32 = 30;

/// Indexer configuration.
#[derive(Debug, Clone, PartialEq, Eq)]
pub struct IndexerConfig {
    /// Seconds between sweeps.
    pub sweep_interval_secs: u64,
    pub max_pages_per_sweep: u32,
    /// Run the deletion reconcile every Nth sweep; 0 is read as 1.
    pub reconcile_every_n_sweeps: u32,
}

impl Default for IndexerConfig {
    fn default() -> (c: Self)
        ensures
            c.sweep_interval_secs == DEFAULT_SWEEP_INTERVAL_SECS,
            c.max_pages_per_sweep == DEFAULT_MAX_PAGES_PER_SWEEP,
            c.reconcile_every_n_sweeps == DEFAULT_RECONCILE_EVERY_N_SWEEPS,
    {
        IndexerConfig {
            sweep_interval_secs: DEFAULT_SWEEP_INTERVAL_SECS,
            max_pages_per_sweep: DEFAULT_MAX_PAGES_PER_SWEEP,
            reconcile_every_n_sweeps: DEFAULT_RECONCILE_EVERY_N_SWEEPS,
        }
    }
}

/// Summary of one sweep over all keyed users.
#[derive(Debug, Clone, PartialEq, Eq)]
pub struct SweepSummary {
    pub users_swept: usize,
    pub total_indexed: usize,
}

/// Summary of one user's sweep.
#[derive(Debug, Clone, PartialEq, Eq)]
pub struct UserSweepSummary {
    pub indexed: usize,
    pub watermark: i64,
    pub touched_ids: Vec<String>,
}

/// The reconcile gate: `(fired, next counter)` after one more sweep, given
/// the sweeps since the last reconcile and the cadence (0 read as 1).
pub open spec fn gate(prev: u32, every: u32) -> (bool, u32) {
    let e: int = if every < 1 {
        1
    } else {
        every as int
    };
    let n: int = if prev == u32::MAX {
        u32::MAX as int
    } else {
        prev + 1
    };
    if n >= e {
        (true, 0u32)
    } else {
        (false, n as u32)
    }
}

/// Whether this sweep also runs the deletion reconcile: it fires, and the
/// counter goes back to 0, on every `every`th sweep (`every` 0 is read as 1).
pub fn reconcile_gate(prev: u32, every: u32) -> (r: (bool, u32))
    ensures
        r == gate(prev, every),
{
    let every = if every < 1 {
        1
    } else {
        every
    };
    let n = if prev == u32::MAX {
        u32::MAX
    } else {
        prev + 1
    };
    if n >= every {
        (true, 0)
    } else {
        (false, n)
    }
}

/// The counter after `sweeps` sweeps from 0.
pub open spec fn counter_after(sweeps: nat, every: u32) -> u32
    decreases sweeps,
{
    if sweeps == 0 {
        0
    } else {
        gate(counter_after((sweeps - 1) as nat, every), every).1
    }
}

/// The reconcile runs exactly on every `every`th sweep: starting from a
/// zero counter, sweep number `n` (from 1) fires iff `n` is a multiple of the
/// cadence, and the counter is then `n` modulo the cadence.
pub proof fn lemma_gate_fires_every_nth(n: nat, every: u32)
    requires
        n >= 1,
        every >= 1,
    ensures
        gate(counter_after((n - 1) as nat, every), every).0 == ((n as int) % (every as int) == 0),
        counter_after(n, every) == (n as int) % (every as int),
    decreases n,
{
    let e = every as int;
    let m = n as int;
    if n > 1 {
        lemma_gate_fires_every_nth((n - 1) as nat, every);
    }
    let c = counter_after((n - 1) as nat, every) as int;
    assert(c == (m - 1) % e) by {
        if n == 1 {
            assert((m - 1) % e == 0) by (nonlinear_arith)
                requires
                    m == 1,
                    e >= 1,
            ;
        }
    }
    assert(0 <= c < e) by (nonlinear_arith)
        requires
            c == (m - 1) % e,
            e >= 1,
    ;
    if c + 1 == e {
        assert(m % e == 0) by (nonlinear_arith)
            requires
                c == (m - 1) % e,
                c + 1 == e,
                m >= 1,
                e >= 1,
        ;
    } else {
        assert(m % e == c + 1) by (nonlinear_arith)
            requires
                c == (m - 1) % e,
                c + 1 < e,
                m >= 1,
                e >= 1,
        ;
    }
}

/// The `asset_index.media_type` text of an Immich asset kind.
pub fn media_type_str(t: ImmichAssetType) -> (s: &'static str)
    ensures
        s@ == (match t {
            ImmichAssetType::Image => "photo"@,
            ImmichAssetType::Video => "video"@,
            ImmichAssetType::Other => "other"@,
        }),
{
    match t {
        ImmichAssetType::Image => "photo",
        ImmichAssetType::Video => "video",
        ImmichAssetType::Other => "other",
    }
}

/// The `updatedAfter` filter of a sweep: none before the first sweep
/// (watermark 0 or less), so the whole library is read.
pub fn since_watermark(watermark: i64) -> (r: Option<i64>)
    ensures
        r == (if watermark > 0 {
            Some(watermark)
        } else {
            None
        }),
{
    if watermark > 0 {
        Some(watermark)
    } else {
        None
    }
}

/// The columns of an index row computed from the asset.
#[derive(Debug, Clone, PartialEq, Eq)]
pub struct IndexRow {
    pub updated_at: i64,
    pub taken_at: Option<i64>,
    pub media_type: &'static str,
    pub face_count: i64,
}

/// The index row columns of `asset`: taken at the EXIF time, else the file
/// creation time; the face count is the number of people.
pub fn index_row(asset: &ImmichAsset) -> (r: IndexRow)
    ensures
        r.updated_at == asset.updated_at,
        r.taken_at == taken_at_of(*asset),
        r.media_type@ == (match asset.asset_type {
            ImmichAssetType::Image => "photo"@,
            ImmichAssetType::Video => "video"@,
            ImmichAssetType::Other => "other"@,
        }),
        r.face_count == asset.people_ids.len() as i64,
{
    IndexRow {
        updated_at: asset.updated_at,
        taken_at: asset.taken_at(),
        media_type: media_type_str(asset.asset_type),
        face_count: asset.people_ids.len() as i64,
    }
}

/// The watermark after seeing `assets`: the largest of `watermark` and
/// their `updated_at`.
pub open spec fn watermark_after(watermark: i64, assets: Seq<ImmichAsset>) -> i64
    decreases assets.len(),
{
    if assets.len() == 0 {
        watermark
    } else {
        let w = watermark_after(watermark, assets.drop_last());
        if assets.last().updated_at > w {
            assets.last().updated_at
        } else {
            w
        }
    }
}

/// The ingest watermark after a sweep that read `assets`; it only moves
/// forward.
pub fn advance_watermark(watermark: i64, assets: &Vec<ImmichAsset>) -> (w: i64)
    ensures
        w == watermark_after(watermark, assets@),
        w >= watermark,
        forall|i: int| 0 <= i < assets@.len() ==> #[trigger] assets@[i].updated_at <= w,
{
    let mut w = watermark;
    let mut i: usize = 0;
    while i < assets.len()
        invariant
            i <= assets.len(),
            w == watermark_after(watermark, assets@.take(i as int)),
            w >= watermark,
            forall|j: int| 0 <= j < i ==> #[trigger] assets@[j].updated_at <= w,
        decreases assets.len() - i,
    {
        assert(assets@.take(i + 1).drop_last() =~= assets@.take(i as int));
        let u = assets[i].updated_at;
        if u > w {
            w = u;
        }
        i += 1;
    }
    assert(assets@.take(assets.len() as int) =~= assets@);
    w
}

/// The ids of the assets a sweep read, in order.
pub fn touched_ids(assets: &Vec<ImmichAsset>) -> (out: Vec<String>)
    ensures
        out@.len() == assets@.len(),
        forall|i: int| 0 <= i < assets@.len() ==> #[trigger] out@[i] == assets@[i].id,
{
    let mut out: Vec<String> = Vec::new();
    let mut i: usize = 0;
    while i < assets.len()
        invariant
            i <= assets.len(),
            out@.len() == i,
            forall|j: int| 0 <= j < i ==> #[trigger] out@[j] == assets@[j].id,
        decreases assets.len() - i,
    {
        out.push(assets[i].id.clone());
        i += 1;
    }
    out
}

/// The indexed ids that Immich no longer holds, in index order: the assets
/// to prune.
pub fn stale_ids(indexed: &Vec<String>, live: &Vec<String>) -> (out: Vec<String>)
    ensures
        id_views(out@) == id_views(indexed@).filter(|id: Seq<char>| !id_views(live@).contains(id)),
{
    let ghost live_ids = id_views(live@);
    let ghost gone = |id: Seq<char>| !live_ids.contains(id);
    let ghost ids = id_views(indexed@);
    let mut out: Vec<String> = Vec::new();
    let mut i: usize = 0;
    while i < indexed.len()
        invariant
            i <= indexed.len(),
            live_ids == id_views(live@),
            ids == id_views(indexed@),
            gone == (|id: Seq<char>| !live_ids.contains(id)),
            id_views(out@) == ids.take(i as int).filter(gone),
        decreases indexed.len() - i,
    {
        let present = contains_id(live, &indexed[i]);
        proof {
            crate::album_sync::lemma_id_views_contains(live@, indexed@[i as int]@);
            reveal(Seq::filter);
            assert(ids.take(i + 1).drop_last() =~= ids.take(i as int));
            assert(ids.take(i + 1).last() == indexed@[i as int]@);
        }
        if !present {
            out.push(indexed[i].clone());
        }
        assert(id_views(out@) =~= ids.take(i + 1).filter(gone));
        i += 1;
    }
    assert(ids.take(indexed.len() as int) =~= ids);
    out
}

} // verus!
