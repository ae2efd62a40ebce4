use system_info_exporter::cache::{
    collect_gpu_info, get_cached_gpu_info, needs_workload_query, CacheStatus, GpuCache,
    GPU_CACHE_MAX_AGE_SECS,
};
use system_info_exporter::gpu::get_gpu_used_count;

const TWO_GPUS: &str = "0, Tesla T4, GPU-aaa, 16384 MiB, 2048 MiB, 14336 MiB, 23 %, 45, 70.50 W, 70.00 W\n1, Tesla T4, GPU-bbb, 16384 MiB, 0 MiB, 16384 MiB, 0 %, 30, 10.00 W, 70.00 W";

#[test]
fn absent_hardware_yields_empty_snapshot() {
    let mut cache = GpuCache::default();
    let snap = collect_gpu_info(false, false, &None, &None, &mut cache, 10);
    assert_eq!(snap.devices.len(), 0);
    assert_eq!(snap.type_counts.len(), 0);
    assert_eq!(snap.used_count, 0);
    assert!(!cache.last_success);
}

#[test]
fn tool_missing_yields_empty_snapshot_when_cache_empty() {
    let mut cache = GpuCache::default();
    let snap = collect_gpu_info(true, false, &None, &None, &mut cache, 10);
    assert_eq!(snap.devices.len(), 0);
    assert!(!cache.last_success);
}

#[test]
fn successful_cycle_populates_cache() {
    let mut cache = GpuCache::default();
    let out = Some(String::from(TWO_GPUS));
    let workload = Some(String::from("GPU-aaa\n"));
    let snap = collect_gpu_info(true, true, &out, &workload, &mut cache, 100);
    assert_eq!(snap.devices.len(), 2);
    assert_eq!(snap.used_count, 1);
    assert_eq!(snap.type_counts.len(), 1);
    assert_eq!(snap.type_counts[0].0, "Tesla T4");
    assert_eq!(snap.type_counts[0].1, 2);
    assert!(cache.last_success);
    assert_eq!(cache.last_update_secs, 100);
    assert_eq!(cache.devices.len(), 2);
}

#[test]
fn two_failures_serve_the_same_snapshot_aged_from_capture() {
    let mut cache = GpuCache::default();
    let out = Some(String::from(TWO_GPUS));
    collect_gpu_info(true, true, &out, &None, &mut cache, 100);

    let snap1 = collect_gpu_info(true, true, &None, &None, &mut cache, 150);
    let (read1, age1, status1) = get_cached_gpu_info(&cache, 150);
    let snap2 = collect_gpu_info(true, true, &None, &None, &mut cache, 200);
    let (read2, age2, status2) = get_cached_gpu_info(&cache, 200);

    assert_eq!(snap1.devices, snap2.devices);
    assert_eq!(snap1.type_counts, snap2.type_counts);
    assert_eq!(snap1.used_count, snap2.used_count);
    assert_eq!(snap1.devices, read1.devices);
    assert_eq!(read1.devices, read2.devices);
    assert_eq!(age1, 50);
    assert_eq!(age2, 100);
    assert_eq!(status1, CacheStatus::Fresh);
    assert_eq!(status2, CacheStatus::Fresh);
    assert_eq!(cache.last_update_secs, 100);
}

#[test]
fn empty_parse_falls_back_to_cache() {
    let mut cache = GpuCache::default();
    let out = Some(String::from(TWO_GPUS));
    collect_gpu_info(true, true, &out, &None, &mut cache, 100);
    let empty_out = Some(String::from("\n"));
    let snap = collect_gpu_info(true, true, &empty_out, &None, &mut cache, 120);
    assert_eq!(snap.devices.len(), 2);
    assert_eq!(cache.last_update_secs, 100);
}

#[test]
fn cache_read_past_threshold_is_stale_but_served() {
    let mut cache = GpuCache::default();
    let out = Some(String::from(TWO_GPUS));
    collect_gpu_info(true, true, &out, &None, &mut cache, 100);
    let (read, age, status) = get_cached_gpu_info(&cache, 100 + GPU_CACHE_MAX_AGE_SECS + 1);
    assert_eq!(read.devices.len(), 2);
    assert_eq!(age, GPU_CACHE_MAX_AGE_SECS + 1);
    assert_eq!(status, CacheStatus::Stale);
}

#[test]
fn empty_cache_serves_empty_snapshot() {
    let cache = GpuCache::default();
    let (read, _age, status) = get_cached_gpu_info(&cache, 42);
    assert_eq!(read.devices.len(), 0);
    assert_eq!(read.used_count, 0);
    assert_eq!(status, CacheStatus::Empty);
}

#[test]
fn empty_workload_result_counts_zero_devices() {
    let out = Some(String::from(TWO_GPUS));
    let mut cache = GpuCache::default();
    let snap = collect_gpu_info(true, true, &out, &Some(String::from("")), &mut cache, 10);
    assert_eq!(snap.devices.len(), 2);
    assert_eq!(snap.used_count, 0);
}

#[test]
fn unknown_workload_identifiers_are_ignored() {
    let out = Some(String::from(TWO_GPUS));
    let mut cache = GpuCache::default();
    let workload = Some(String::from("GPU-zzz\nGPU-bbb\nGPU-zzz\n"));
    let snap = collect_gpu_info(true, true, &out, &workload, &mut cache, 10);
    assert_eq!(snap.used_count, 1);
}

#[test]
fn failed_workload_query_degrades_count_to_zero() {
    let out = Some(String::from(TWO_GPUS));
    let mut cache = GpuCache::default();
    let snap = collect_gpu_info(true, true, &out, &None, &mut cache, 10);
    assert_eq!(snap.devices.len(), 2);
    assert_eq!(snap.used_count, 0);
    assert!(cache.last_success);
}

#[test]
fn workload_query_needed_only_for_records() {
    assert!(needs_workload_query(&Some(String::from(TWO_GPUS))));
    assert!(!needs_workload_query(&Some(String::from("\n"))));
    assert!(!needs_workload_query(&None));
}

#[test]
fn type_counts_group_by_first_appearance() {
    let out = "0, A100, u0, 1, 1, 1, 1, 1, 1, 1\n1, T4, u1, 1, 1, 1, 1, 1, 1, 1\n2, A100, u2, 1, 1, 1, 1, 1, 1, 1";
    let devices = system_info_exporter::gpu::parse_nvidia_smi_output(out);
    let counts = system_info_exporter::gpu::count_gpu_types(&devices);
    assert_eq!(counts.len(), 2);
    assert_eq!(counts[0].0, "A100");
    assert_eq!(counts[0].1, 2);
    assert_eq!(counts[1].0, "T4");
    assert_eq!(counts[1].1, 1);
}

#[test]
fn used_count_intersects_by_uuid() {
    let out = String::from(TWO_GPUS);
    let devices = system_info_exporter::gpu::parse_nvidia_smi_output(&out);
    assert_eq!(get_gpu_used_count(&devices, &None), 0);
    assert_eq!(get_gpu_used_count(&devices, &Some(String::from("GPU-aaa\nGPU-bbb"))), 2);
    assert_eq!(get_gpu_used_count(&devices, &Some(String::from("  GPU-aaa  \n"))), 1);
}
