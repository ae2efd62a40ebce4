//! The staleness-aware cache of the last good device snapshot, and the
//! acquisition cycle that consults it.
//!
//! Exactly one cache instance exists per process; the composition root
//! constructs it and hands a guarded reference to every request path. The
//! cache starts empty and is overwritten in place only after a fully
//! successful acquisition; every cycle, successful or not, may read it.
//! When live acquisition fails, old data is preferred over no data: the
//! cached snapshot is served however old it is, and an age past the
//! staleness threshold merely flags the read as stale.

use vstd::prelude::*;

use crate::gpu::{
    count_gpu_types, count_used_spec, duplicate_devices, duplicate_type_counts,
    get_gpu_used_count, parse_nvidia_smi_output, parse_output_spec, type_counts_spec, GpuInfo,
    GpuInfoView, uuid_lines_spec,
};
use crate::text::split_spec;

verus! {

/// Maximum age, in seconds, before cached device data counts as stale.
/// Stale data is still served; the flag exists so a reader can log it.
pub const GPU_CACHE_MAX_AGE_SECS: u64 = 300;

// ---------------------------------------------------------------------------
// Snapshots
// ---------------------------------------------------------------------------

/// One sampling cycle's complete accelerator state: the ordered device
/// records, the name-to-count grouping derived from them, and the count of
/// devices with an active workload.
#[derive(Debug)]
pub struct GpuSnapshot {
    pub devices: Vec<GpuInfo>,
    pub type_counts: Vec<(String, u32)>,
    pub used_count: usize,
}

/// The mathematical image of a `GpuSnapshot`.
pub ghost struct GpuSnapshotView {
    pub devices: Seq<GpuInfoView>,
    pub type_counts: Seq<(Seq<char>, u32)>,
    pub used_count: usize,
}

impl View for GpuSnapshot {
    type V = GpuSnapshotView;

    open spec fn view(&self) -> GpuSnapshotView {
        GpuSnapshotView {
            devices: self.devices.deep_view(),
            type_counts: self.type_counts.deep_view(),
            used_count: self.used_count,
        }
    }
}

/// A snapshot is well formed when its derived parts agree with its device
/// list: the grouping is the one the devices induce, and the used-device
/// count never exceeds the device count.
pub open spec fn snapshot_wf(s: GpuSnapshotView) -> bool {
    &&& s.type_counts == type_counts_spec(s.devices)
    &&& s.used_count <= s.devices.len()
}

/// The snapshot of a cycle that found no devices.
pub open spec fn empty_snapshot_view() -> GpuSnapshotView {
    GpuSnapshotView { devices: Seq::empty(), type_counts: Seq::empty(), used_count: 0 }
}

/// Builds the snapshot of a cycle that found no devices.
pub fn empty_snapshot() -> (s: GpuSnapshot)
    ensures
        s@ == empty_snapshot_view(),
        snapshot_wf(s@),
{
    let s = GpuSnapshot { devices: Vec::new(), type_counts: Vec::new(), used_count: 0 };
    proof {
        assert(s@.devices =~= Seq::<GpuInfoView>::empty());
        assert(s@.type_counts =~= Seq::<(Seq<char>, u32)>::empty());
    }
    s
}

// ---------------------------------------------------------------------------
// The cache
// ---------------------------------------------------------------------------

/// The last-known-good device data: the snapshot fields of the most recent
/// successful cycle, the time it was captured (seconds on the caller's
/// clock), and whether any cycle has succeeded yet.
#[derive(Debug)]
pub struct GpuCache {
    pub devices: Vec<GpuInfo>,
    pub type_counts: Vec<(String, u32)>,
    pub used_count: usize,
    pub last_update_secs: u64,
    pub last_success: bool,
}

/// The mathematical image of a `GpuCache`.
pub ghost struct GpuCacheView {
    pub devices: Seq<GpuInfoView>,
    pub type_counts: Seq<(Seq<char>, u32)>,
    pub used_count: usize,
    pub last_update_secs: u64,
    pub last_success: bool,
}

impl View for GpuCache {
    type V = GpuCacheView;

    open spec fn view(&self) -> GpuCacheView {
        GpuCacheView {
            devices: self.devices.deep_view(),
            type_counts: self.type_counts.deep_view(),
            used_count: self.used_count,
            last_update_secs: self.last_update_secs,
            last_success: self.last_success,
        }
    }
}

/// The cache invariant: derived parts agree with the stored device list,
/// exactly as in a well-formed snapshot.
pub open spec fn cache_wf(c: GpuCacheView) -> bool {
    &&& c.type_counts == type_counts_spec(c.devices)
    &&& c.used_count <= c.devices.len()
}

/// What a read of the cache serves: the stored snapshot, or the empty
/// snapshot while no cycle has ever succeeded (the cache then holds no
/// devices).
pub open spec fn cache_snapshot_view(c: GpuCacheView) -> GpuSnapshotView {
    if c.devices.len() == 0 {
        empty_snapshot_view()
    } else {
        GpuSnapshotView {
            devices: c.devices,
            type_counts: c.type_counts,
            used_count: c.used_count,
        }
    }
}

/// Age of the cached data at `now_secs`, measured from the capture time;
/// zero if the clock reads earlier than the capture.
pub open spec fn cache_age(c: GpuCacheView, now_secs: u64) -> u64 {
    if now_secs >= c.last_update_secs {
        (now_secs - c.last_update_secs) as u64
    } else {
        0
    }
}

/// How a cache read at `now_secs` is classified.
#[derive(Debug, Clone, Copy, PartialEq, Eq, Structural)]
pub enum CacheStatus {
    /// No successful cycle has populated the cache yet.
    Empty,
    /// Cached data is present and within the staleness threshold.
    Fresh,
    /// Cached data is present but older than the staleness threshold;
    /// it is still served.
    Stale,
}

/// The classification of a cache read at `now_secs`.
pub open spec fn cache_status_spec(c: GpuCacheView, now_secs: u64) -> CacheStatus {
    if c.devices.len() == 0 {
        CacheStatus::Empty
    } else if cache_age(c, now_secs) > GPU_CACHE_MAX_AGE_SECS {
        CacheStatus::Stale
    } else {
        CacheStatus::Fresh
    }
}

impl Default for GpuCache {
    /// The state at process start: no devices, no success recorded,
    /// capture time zero.
    fn default() -> (c: GpuCache)
        ensures
            c@.devices.len() == 0,
            c@.type_counts.len() == 0,
            c@.used_count == 0,
            c@.last_update_secs == 0,
            !c@.last_success,
            cache_wf(c@),
    {
        let c = GpuCache {
            devices: Vec::new(),
            type_counts: Vec::new(),
            used_count: 0,
            last_update_secs: 0,
            last_success: false,
        };
        proof {
            assert(c@.devices =~= Seq::<GpuInfoView>::empty());
            assert(c@.type_counts =~= Seq::<(Seq<char>, u32)>::empty());
        }
        c
    }
}

/// Reads the cache: the last populated snapshot (empty if none), its age,
/// and whether the read counts as empty, fresh or stale. Never fails; a
/// cycle whose live acquisition failed calls this to serve old data rather
/// than none.
pub fn get_cached_gpu_info(cache: &GpuCache, now_secs: u64) -> (r: (GpuSnapshot, u64, CacheStatus))
    ensures
        r.0@ == cache_snapshot_view(cache@),
        r.1 == cache_age(cache@, now_secs),
        r.2 == cache_status_spec(cache@, now_secs),
        cache_wf(cache@) ==> snapshot_wf(r.0@),
{
    let age = if now_secs >= cache.last_update_secs {
        now_secs - cache.last_update_secs
    } else {
        0
    };
    if cache.devices.len() == 0 {
        let s = empty_snapshot();
        proof {
            assert(type_counts_spec(Seq::<GpuInfoView>::empty()) =~= Seq::<(Seq<char>, u32)>::empty());
        }
        (s, age, CacheStatus::Empty)
    } else {
        let snap = GpuSnapshot {
            devices: duplicate_devices(&cache.devices),
            type_counts: duplicate_type_counts(&cache.type_counts),
            used_count: cache.used_count,
        };
        let status = if age > GPU_CACHE_MAX_AGE_SECS {
            CacheStatus::Stale
        } else {
            CacheStatus::Fresh
        };
        (snap, age, status)
    }
}

// ---------------------------------------------------------------------------
// The acquisition cycle
// ---------------------------------------------------------------------------

/// What the device-query output of the cycle parsed to.
pub open spec fn live_devices(primary_output: Option<Seq<char>>) -> Seq<GpuInfoView> {
    match primary_output {
        Some(out) => parse_output_spec(out),
        None => Seq::empty(),
    }
}

/// Whether a cycle whose device query returned `primary_output` goes on to
/// run the active-workload query: only when the output parsed to at least
/// one record.
pub fn needs_workload_query(primary_output: &Option<String>) -> (b: bool)
    ensures
        b == (live_devices(primary_output.deep_view()).len() > 0),
{
    match primary_output {
        Some(out) => {
            let devices = parse_nvidia_smi_output(out.as_str());
            devices.len() > 0
        },
        None => false,
    }
}

/// One full acquisition cycle over the outcomes of this cycle's external
/// steps, all decisions included:
///
/// - no hardware evidence or no tool found: the empty snapshot, the cache
///   untouched, no subprocess output expected;
/// - device query failed, or parsed to zero records: the cached snapshot is
///   served and the cache is untouched;
/// - the query parsed to at least one record: the new snapshot is assembled
///   (grouping derived, workload identifiers intersected; a failed workload
///   query degrades the used count to zero) and written to the cache with
///   `now_secs` as its capture time.
pub fn collect_gpu_info(
    gpu_present: bool,
    tool_found: bool,
    primary_output: &Option<String>,
    workload_output: &Option<String>,
    cache: &mut GpuCache,
    now_secs: u64,
) -> (snap: GpuSnapshot)
    ensures
        ({
            let live = live_devices(primary_output.deep_view());
            &&& (!gpu_present || !tool_found) ==> snap@ == empty_snapshot_view() && *final(cache)
                == *old(cache)
            &&& (gpu_present && tool_found && live.len() == 0) ==> snap@ == cache_snapshot_view(
                old(cache)@,
            ) && *final(cache) == *old(cache)
            &&& (gpu_present && tool_found && live.len() > 0) ==> {
                &&& snap@.devices == live
                &&& snap@.type_counts == type_counts_spec(live)
                &&& snap@.used_count == match workload_output.deep_view() {
                    Some(w) => count_used_spec(live, uuid_lines_spec(split_spec(w, '\n'))),
                    None => 0,
                }
                &&& final(cache)@.devices == snap@.devices
                &&& final(cache)@.type_counts == snap@.type_counts
                &&& final(cache)@.used_count == snap@.used_count
                &&& final(cache)@.last_update_secs == now_secs
                &&& final(cache)@.last_success
            }
        }),
        cache_wf(old(cache)@) ==> cache_wf(final(cache)@) && snapshot_wf(snap@),
{
    if !gpu_present || !tool_found {
        return empty_snapshot();
    }
    let out = match primary_output {
        Some(out) => out,
        None => {
            let (snap, _age, _status) = get_cached_gpu_info(cache, now_secs);
            return snap;
        },
    };
    let devices = parse_nvidia_smi_output(out.as_str());
    if devices.len() == 0 {
        let (snap, _age, _status) = get_cached_gpu_info(cache, now_secs);
        return snap;
    }
    let type_counts = count_gpu_types(&devices);
    let used_count = get_gpu_used_count(&devices, workload_output);
    proof {
        crate::gpu::lemma_count_used_le(devices.deep_view());
    }
    cache.devices = duplicate_devices(&devices);
    cache.type_counts = duplicate_type_counts(&type_counts);
    cache.used_count = used_count;
    cache.last_update_secs = now_secs;
    cache.last_success = true;
    GpuSnapshot { devices, type_counts, used_count }
}

// ---------------------------------------------------------------------------
// What failed cycles serve
// ---------------------------------------------------------------------------

/// What an acquisition cycle serves when its live query fails: the cached
/// snapshot and that snapshot's age at the time of the attempt.
pub open spec fn failed_cycle_view(c: GpuCacheView, now_secs: u64) -> (GpuSnapshotView, u64) {
    (cache_snapshot_view(c), cache_age(c, now_secs))
}

/// Two live-acquisition failures in a row serve the same snapshot — the
/// last successful one — and each serving's age is measured from the
/// original capture time, not from any failed attempt; a failed cycle
/// leaves the cache exactly as it was.
pub proof fn lemma_failed_cycles_agree(c: GpuCacheView, t1: u64, t2: u64)
    requires
        c.last_update_secs <= t1,
        c.last_update_secs <= t2,
    ensures
        failed_cycle_view(c, t1).0 == failed_cycle_view(c, t2).0,
        failed_cycle_view(c, t1).1 == t1 - c.last_update_secs,
        failed_cycle_view(c, t2).1 == t2 - c.last_update_secs,
{
}

} // verus!
