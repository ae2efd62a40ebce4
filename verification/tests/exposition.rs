use system_info_exporter::cache::GpuSnapshot;
use system_info_exporter::config::MetricsEnabled;
use system_info_exporter::gpu::{count_gpu_types, parse_nvidia_smi_output};
use system_info_exporter::metrics::{collect, HostFacts, NodeMetrics};

fn host_facts() -> HostFacts {
    HostFacts {
        hostname: String::from("h1"),
        node: String::from("n1"),
        os_name: String::from("Ubuntu"),
        os_version: String::from("22.04"),
        kernel_version: String::from("5.15"),
        uptime_secs: 3600,
        cpu_cores: 8,
        cpu_threads: 16,
        cpu_model: String::from("AMD"),
        cpu_usage_centipercent: 1234,
        memory_total_bytes: 1000,
        memory_used_bytes: 500,
        memory_available_bytes: 500,
    }
}

fn empty_gpu() -> GpuSnapshot {
    GpuSnapshot { devices: Vec::new(), type_counts: Vec::new(), used_count: 0 }
}

fn two_gpu_snapshot() -> GpuSnapshot {
    let devices = parse_nvidia_smi_output(
        "0, Tesla T4, GPU-aaa, 16384 MiB, 2048 MiB, 14336 MiB, 23 %, 45, 70.50 W, 70.00 W\n1, Tesla T4, GPU-bbb, 16384 MiB, 0 MiB, 16384 MiB, 0 %, 30, 10.00 W, 70.00 W",
    );
    let type_counts = count_gpu_types(&devices);
    GpuSnapshot { devices, type_counts, used_count: 1 }
}

#[test]
fn derived_figures_are_computed() {
    let m = NodeMetrics::collect(host_facts(), empty_gpu());
    assert_eq!(m.memory_usage_centipercent, 5000);
    assert_eq!(m.cpu_used_cores_centi, 197);
    assert_eq!(m.gpu_count, 0);
}

#[test]
fn device_count_equals_device_list_length() {
    let m = NodeMetrics::collect(host_facts(), two_gpu_snapshot());
    assert_eq!(m.gpu_count, m.gpu_devices.len());
    assert_eq!(m.gpu_count, 2);
    assert_eq!(m.gpu_used_count, 1);
}

#[test]
fn scalar_sections_render_exactly() {
    let m = NodeMetrics::collect(host_facts(), empty_gpu());
    let text = m.to_prometheus(&MetricsEnabled::default());
    let expected = [
        "# HELP hw_node_info Node hardware information",
        "# TYPE hw_node_info gauge",
        "hw_node_info{node=\"n1\",os=\"Ubuntu\",os_version=\"22.04\",kernel=\"5.15\",cpu_model=\"AMD\"} 1",
        "# HELP hw_node_uptime_seconds Node uptime in seconds",
        "# TYPE hw_node_uptime_seconds counter",
        "hw_node_uptime_seconds{node=\"n1\"} 3600",
        "# HELP hw_cpu_cores Number of physical CPU cores",
        "# TYPE hw_cpu_cores gauge",
        "hw_cpu_cores{node=\"n1\"} 8",
        "# HELP hw_cpu_threads Number of CPU threads",
        "# TYPE hw_cpu_threads gauge",
        "hw_cpu_threads{node=\"n1\"} 16",
        "# HELP hw_cpu_usage_percent CPU usage percentage",
        "# TYPE hw_cpu_usage_percent gauge",
        "hw_cpu_usage_percent{node=\"n1\"} 12.34",
        "# HELP hw_cpu_used_cores Number of CPU cores currently in use",
        "# TYPE hw_cpu_used_cores gauge",
        "hw_cpu_used_cores{node=\"n1\"} 1.97",
        "# HELP hw_memory_total_bytes Total memory in bytes",
        "# TYPE hw_memory_total_bytes gauge",
        "hw_memory_total_bytes{node=\"n1\"} 1000",
        "# HELP hw_memory_used_bytes Used memory in bytes",
        "# TYPE hw_memory_used_bytes gauge",
        "hw_memory_used_bytes{node=\"n1\"} 500",
        "# HELP hw_memory_available_bytes Available memory in bytes",
        "# TYPE hw_memory_available_bytes gauge",
        "hw_memory_available_bytes{node=\"n1\"} 500",
        "# HELP hw_memory_usage_percent Memory usage percentage",
        "# TYPE hw_memory_usage_percent gauge",
        "hw_memory_usage_percent{node=\"n1\"} 50.00",
    ]
    .join("\n")
        + "\n";
    assert_eq!(text, expected);
}

#[test]
fn each_enabled_device_family_emits_one_line_per_device() {
    let m = NodeMetrics::collect(host_facts(), two_gpu_snapshot());
    let text = m.to_prometheus(&MetricsEnabled::default());
    let families = [
        "hw_gpu_memory_total_bytes{",
        "hw_gpu_memory_used_bytes{",
        "hw_gpu_memory_free_bytes{",
        "hw_gpu_utilization_percent{",
        "hw_gpu_temperature_celsius{",
        "hw_gpu_power_draw_watts{",
        "hw_gpu_power_limit_watts{",
    ];
    for family in families {
        let count = text.lines().filter(|l| l.starts_with(family)).count();
        assert_eq!(count, 2, "family {} should have one line per device", family);
    }
}

#[test]
fn device_lines_render_bytes_and_labels() {
    let m = NodeMetrics::collect(host_facts(), two_gpu_snapshot());
    let text = m.to_prometheus(&MetricsEnabled::default());
    assert!(text.contains(
        "hw_gpu_memory_total_bytes{node=\"n1\",gpu_index=\"0\",gpu_name=\"Tesla T4\",gpu_uuid=\"GPU-aaa\"} 17179869184\n"
    ));
    assert!(text.contains("hw_gpu_count{node=\"n1\"} 2\n"));
    assert!(text.contains("hw_gpu_used_count{node=\"n1\"} 1\n"));
    assert!(text.contains(
        "hw_gpu_type_count{node=\"n1\",gpu_type=\"Tesla T4\"} 2\n"
    ));
}

#[test]
fn reformatting_is_byte_identical() {
    let m = NodeMetrics::collect(host_facts(), two_gpu_snapshot());
    let e = MetricsEnabled::default();
    let a = m.to_prometheus(&e);
    let b = m.to_prometheus(&e);
    assert_eq!(a.as_bytes(), b.as_bytes());
}

#[test]
fn disabled_family_is_absent() {
    let mut e = MetricsEnabled::default();
    e.cpu_usage = false;
    let m = NodeMetrics::collect(host_facts(), empty_gpu());
    let text = m.to_prometheus(&e);
    assert!(!text.contains("hw_cpu_usage_percent"));
    assert!(text.contains("hw_cpu_threads"));
}

#[test]
fn gpu_families_absent_without_devices() {
    let m = NodeMetrics::collect(host_facts(), empty_gpu());
    let text = m.to_prometheus(&MetricsEnabled::default());
    assert!(!text.contains("hw_gpu_"));
}

#[test]
fn cpu_model_label_is_escaped() {
    let mut host = host_facts();
    host.cpu_model = String::from("bad\"model\\v1\n");
    let m = NodeMetrics::collect(host, empty_gpu());
    let text = m.to_prometheus(&MetricsEnabled::default());
    assert!(text.contains("cpu_model=\"bad\\\"model\\\\v1\\n\"} 1\n"));
}

#[test]
fn summary_projection_copies_fields() {
    let m = NodeMetrics::collect(host_facts(), empty_gpu());
    let s = collect(&m);
    assert_eq!(s.cpu_usage_centipercent, 1234);
    assert_eq!(s.memory_total, 1000);
    assert_eq!(s.memory_used, 500);
    assert_eq!(s.memory_usage_centipercent, 5000);
    assert_eq!(s.hostname, "h1");
    assert_eq!(s.os_name, "Ubuntu");
    assert_eq!(s.os_version, "22.04");
    assert_eq!(s.uptime, 3600);
}
