//! The merged node metrics and their rendering in the Prometheus text
//! exposition format.
//!
//! A `NodeMetrics` value is assembled from host facts (gathered outside
//! this crate and handed in as plain values) and one accelerator snapshot.
//! Percentages arrive and are held in hundredths, so a value such as
//! `23.45 %` is the integer `2345`; rendering writes the whole part, a dot
//! and two fractional digits, exactly as the exposition wants it.
//!
//! `to_prometheus` is a function of its inputs alone: its contract names
//! the full output, character for character, so rendering the same
//! snapshot twice yields byte-identical text.

use vstd::prelude::*;

use crate::cache::GpuSnapshot;
use crate::config::MetricsEnabled;
use crate::gpu::{GpuInfo, GpuInfoView};
use crate::text;
use crate::text::{centi_spec, count_char, dec_spec, digit_char, escape_spec, has_no_char};

verus! {

// ---------------------------------------------------------------------------
// Host facts and the merged metrics
// ---------------------------------------------------------------------------

/// What the host probe reports about the node itself, as plain values:
/// identity strings, counters, and CPU usage already in hundredths of a
/// percent.
pub struct HostFacts {
    pub hostname: String,
    pub node: String,
    pub os_name: String,
    pub os_version: String,
    pub kernel_version: String,
    pub uptime_secs: u64,
    pub cpu_cores: usize,
    pub cpu_threads: usize,
    pub cpu_model: String,
    pub cpu_usage_centipercent: u64,
    pub memory_total_bytes: u64,
    pub memory_used_bytes: u64,
    pub memory_available_bytes: u64,
}

/// The mathematical image of `HostFacts`.
pub ghost struct HostFactsView {
    pub hostname: Seq<char>,
    pub node: Seq<char>,
    pub os_name: Seq<char>,
    pub os_version: Seq<char>,
    pub kernel_version: Seq<char>,
    pub uptime_secs: u64,
    pub cpu_cores: usize,
    pub cpu_threads: usize,
    pub cpu_model: Seq<char>,
    pub cpu_usage_centipercent: u64,
    pub memory_total_bytes: u64,
    pub memory_used_bytes: u64,
    pub memory_available_bytes: u64,
}

impl View for HostFacts {
    type V = HostFactsView;

    open spec fn view(&self) -> HostFactsView {
        HostFactsView {
            hostname: self.hostname@,
            node: self.node@,
            os_name: self.os_name@,
            os_version: self.os_version@,
            kernel_version: self.kernel_version@,
            uptime_secs: self.uptime_secs,
            cpu_cores: self.cpu_cores,
            cpu_threads: self.cpu_threads,
            cpu_model: self.cpu_model@,
            cpu_usage_centipercent: self.cpu_usage_centipercent,
            memory_total_bytes: self.memory_total_bytes,
            memory_used_bytes: self.memory_used_bytes,
            memory_available_bytes: self.memory_available_bytes,
        }
    }
}

/// The complete merged metrics of one scrape: host facts, the derived CPU
/// and memory figures, and the accelerator snapshot.
pub struct NodeMetrics {
    pub hostname: String,
    pub node: String,
    pub os_name: String,
    pub os_version: String,
    pub kernel_version: String,
    pub uptime_secs: u64,
    pub cpu_cores: usize,
    pub cpu_threads: usize,
    pub cpu_model: String,
    pub cpu_usage_centipercent: u64,
    pub cpu_used_cores_centi: u64,
    pub memory_total_bytes: u64,
    pub memory_used_bytes: u64,
    pub memory_available_bytes: u64,
    pub memory_usage_centipercent: u64,
    pub gpu_count: usize,
    pub gpu_used_count: usize,
    pub gpu_devices: Vec<GpuInfo>,
    pub gpu_type_counts: Vec<(String, u32)>,
}

/// The mathematical image of `NodeMetrics`.
pub ghost struct NodeMetricsView {
    pub hostname: Seq<char>,
    pub node: Seq<char>,
    pub os_name: Seq<char>,
    pub os_version: Seq<char>,
    pub kernel_version: Seq<char>,
    pub uptime_secs: u64,
    pub cpu_cores: usize,
    pub cpu_threads: usize,
    pub cpu_model: Seq<char>,
    pub cpu_usage_centipercent: u64,
    pub cpu_used_cores_centi: u64,
    pub memory_total_bytes: u64,
    pub memory_used_bytes: u64,
    pub memory_available_bytes: u64,
    pub memory_usage_centipercent: u64,
    pub gpu_count: usize,
    pub gpu_used_count: usize,
    pub gpu_devices: Seq<GpuInfoView>,
    pub gpu_type_counts: Seq<(Seq<char>, u32)>,
}

impl View for NodeMetrics {
    type V = NodeMetricsView;

    open spec fn view(&self) -> NodeMetricsView {
        NodeMetricsView {
            hostname: self.hostname@,
            node: self.node@,
            os_name: self.os_name@,
            os_version: self.os_version@,
            kernel_version: self.kernel_version@,
            uptime_secs: self.uptime_secs,
            cpu_cores: self.cpu_cores,
            cpu_threads: self.cpu_threads,
            cpu_model: self.cpu_model@,
            cpu_usage_centipercent: self.cpu_usage_centipercent,
            cpu_used_cores_centi: self.cpu_used_cores_centi,
            memory_total_bytes: self.memory_total_bytes,
            memory_used_bytes: self.memory_used_bytes,
            memory_available_bytes: self.memory_available_bytes,
            memory_usage_centipercent: self.memory_usage_centipercent,
            gpu_count: self.gpu_count,
            gpu_used_count: self.gpu_used_count,
            gpu_devices: self.gpu_devices.deep_view(),
            gpu_type_counts: self.gpu_type_counts.deep_view(),
        }
    }
}

// ---------------------------------------------------------------------------
// Derived figures
// ---------------------------------------------------------------------------

/// Memory usage in hundredths of a percent: `used * 10000 / total`,
/// zero when no total is known, held at `u64::MAX` if it cannot fit.
pub open spec fn mem_usage_centi_spec(total: u64, used: u64) -> u64 {
    if total == 0 {
        0
    } else {
        let v = (used as nat * 10000) / total as nat;
        if v > u64::MAX as nat {
            u64::MAX
        } else {
            v as u64
        }
    }
}

/// CPU cores in use, in hundredths of a core: usage (in hundredths of a
/// percent) times the thread count over one hundred, held at `u64::MAX`
/// if it cannot fit.
pub open spec fn used_cores_centi_spec(usage_centi: u64, threads: usize) -> u64 {
    let v = (usage_centi as nat * threads as nat) / 100;
    if v > u64::MAX as nat {
        u64::MAX
    } else {
        v as u64
    }
}

fn mem_usage_centi(total: u64, used: u64) -> (c: u64)
    ensures
        c == mem_usage_centi_spec(total, used),
{
    if total == 0 {
        return 0;
    }
    let v: u128 = (used as u128) * 10000 / (total as u128);
    if v > u64::MAX as u128 {
        u64::MAX
    } else {
        v as u64
    }
}

fn used_cores_centi(usage_centi: u64, threads: usize) -> (c: u64)
    ensures
        c == used_cores_centi_spec(usage_centi, threads),
{
    proof {
        assert((usage_centi as nat) * (threads as nat) <= (u64::MAX as nat) * (u64::MAX as nat))
            by (nonlinear_arith)
            requires
                usage_centi as nat <= u64::MAX as nat,
                threads as nat <= u64::MAX as nat,
        ;
    }
    let v: u128 = (usage_centi as u128) * (threads as u128) / 100;
    if v > u64::MAX as u128 {
        u64::MAX
    } else {
        v as u64
    }
}

impl NodeMetrics {
    /// Merges host facts and an accelerator snapshot into the complete
    /// metrics of one scrape, deriving memory usage and cores-in-use; the
    /// device count is the length of the device list.
    pub fn collect(host: HostFacts, gpu: GpuSnapshot) -> (m: NodeMetrics)
        ensures
            m@.hostname == host@.hostname,
            m@.node == host@.node,
            m@.os_name == host@.os_name,
            m@.os_version == host@.os_version,
            m@.kernel_version == host@.kernel_version,
            m@.uptime_secs == host@.uptime_secs,
            m@.cpu_cores == host@.cpu_cores,
            m@.cpu_threads == host@.cpu_threads,
            m@.cpu_model == host@.cpu_model,
            m@.cpu_usage_centipercent == host@.cpu_usage_centipercent,
            m@.cpu_used_cores_centi == used_cores_centi_spec(
                host@.cpu_usage_centipercent,
                host@.cpu_threads,
            ),
            m@.memory_total_bytes == host@.memory_total_bytes,
            m@.memory_used_bytes == host@.memory_used_bytes,
            m@.memory_available_bytes == host@.memory_available_bytes,
            m@.memory_usage_centipercent == mem_usage_centi_spec(
                host@.memory_total_bytes,
                host@.memory_used_bytes,
            ),
            m@.gpu_count == gpu@.devices.len(),
            m@.gpu_used_count == gpu@.used_count,
            m@.gpu_devices == gpu@.devices,
            m@.gpu_type_counts == gpu@.type_counts,
    {
        let memory_usage_centipercent = mem_usage_centi(
            host.memory_total_bytes,
            host.memory_used_bytes,
        );
        let cpu_used_cores_centi = used_cores_centi(host.cpu_usage_centipercent, host.cpu_threads);
        let gpu_count = gpu.devices.len();
        NodeMetrics {
            hostname: host.hostname,
            node: host.node,
            os_name: host.os_name,
            os_version: host.os_version,
            kernel_version: host.kernel_version,
            uptime_secs: host.uptime_secs,
            cpu_cores: host.cpu_cores,
            cpu_threads: host.cpu_threads,
            cpu_model: host.cpu_model,
            cpu_usage_centipercent: host.cpu_usage_centipercent,
            cpu_used_cores_centi,
            memory_total_bytes: host.memory_total_bytes,
            memory_used_bytes: host.memory_used_bytes,
            memory_available_bytes: host.memory_available_bytes,
            memory_usage_centipercent,
            gpu_count,
            gpu_used_count: gpu.used_count,
            gpu_devices: gpu.devices,
            gpu_type_counts: gpu.type_counts,
        }
    }
}

// ---------------------------------------------------------------------------
// The compact summary
// ---------------------------------------------------------------------------

/// The reduced metrics set kept for the older JSON surface.
pub struct SystemMetrics {
    pub cpu_usage_centipercent: u64,
    pub memory_total: u64,
    pub memory_used: u64,
    pub memory_usage_centipercent: u64,
    pub hostname: String,
    pub os_name: String,
    pub os_version: String,
    pub uptime: u64,
}

/// Projects the merged metrics down to the compact summary.
pub fn collect(node: &NodeMetrics) -> (s: SystemMetrics)
    ensures
        s.cpu_usage_centipercent == node@.cpu_usage_centipercent,
        s.memory_total == node@.memory_total_bytes,
        s.memory_used == node@.memory_used_bytes,
        s.memory_usage_centipercent == node@.memory_usage_centipercent,
        s.hostname@ == node@.hostname,
        s.os_name@ == node@.os_name,
        s.os_version@ == node@.os_version,
        s.uptime == node@.uptime_secs,
{
    SystemMetrics {
        cpu_usage_centipercent: node.cpu_usage_centipercent,
        memory_total: node.memory_total_bytes,
        memory_used: node.memory_used_bytes,
        memory_usage_centipercent: node.memory_usage_centipercent,
        hostname: node.hostname.clone(),
        os_name: node.os_name.clone(),
        os_version: node.os_version.clone(),
        uptime: node.uptime_secs,
    }
}

// ---------------------------------------------------------------------------
// Exposition building blocks
// ---------------------------------------------------------------------------

/// One sample of a node-scalar metric: the family name, the node label,
/// the rendered value, the newline.
pub open spec fn sample_scalar_spec(name: Seq<char>, node: Seq<char>, digits: Seq<char>) -> Seq<
    char,
> {
    name + "{node=\""@ + node + "\"} "@ + digits + "\n"@
}

/// One node-scalar metric family: its `# HELP` line, its `# TYPE` line and
/// its single sample; nothing when the family is disabled.
pub open spec fn scalar_block_spec(
    enabled: bool,
    help: Seq<char>,
    type_line: Seq<char>,
    name: Seq<char>,
    node: Seq<char>,
    digits: Seq<char>,
) -> Seq<char> {
    if enabled {
        help + type_line + sample_scalar_spec(name, node, digits)
    } else {
        Seq::empty()
    }
}

fn emit_scalar(
    out: &mut String,
    enabled: bool,
    help: &str,
    type_line: &str,
    name: &str,
    node: &str,
    digits: &String,
)
    ensures
        final(out)@ == old(out)@ + scalar_block_spec(
            enabled,
            help@,
            type_line@,
            name@,
            node@,
            digits@,
        ),
{
    if enabled {
        out.append(help);
        out.append(type_line);
        out.append(name);
        out.append("{node=\"");
        out.append(node);
        out.append("\"} ");
        out.append(digits.as_str());
        out.append("\n");
        proof {
            assert(out@ =~= old(out)@ + scalar_block_spec(
                true,
                help@,
                type_line@,
                name@,
                node@,
                digits@,
            ));
        }
    } else {
        proof {
            assert(old(out)@ + Seq::<char>::empty() =~= old(out)@);
        }
    }
}

/// The node-information sample: every identity label on one `1`-valued
/// gauge; only the CPU model, which alone may carry arbitrary text, is
/// escaped.
pub open spec fn node_info_line_spec(m: NodeMetricsView) -> Seq<char> {
    "hw_node_info{node=\""@ + m.node + "\",os=\""@ + m.os_name + "\",os_version=\""@
        + m.os_version + "\",kernel=\""@ + m.kernel_version + "\",cpu_model=\""@ + escape_spec(
        m.cpu_model,
    ) + "\"} 1\n"@
}

/// The node-information family, or nothing when disabled.
pub open spec fn node_info_block_spec(m: NodeMetricsView, enabled: bool) -> Seq<char> {
    if enabled {
        "# HELP hw_node_info Node hardware information\n"@
            + "# TYPE hw_node_info gauge\n"@ + node_info_line_spec(m)
    } else {
        Seq::empty()
    }
}

fn emit_node_info(out: &mut String, enabled: bool, m: &NodeMetrics)
    ensures
        final(out)@ == old(out)@ + node_info_block_spec(m@, enabled),
{
    if enabled {
        out.append("# HELP hw_node_info Node hardware information\n");
        out.append("# TYPE hw_node_info gauge\n");
        out.append("hw_node_info{node=\"");
        out.append(m.node.as_str());
        out.append("\",os=\"");
        out.append(m.os_name.as_str());
        out.append("\",os_version=\"");
        out.append(m.os_version.as_str());
        out.append("\",kernel=\"");
        out.append(m.kernel_version.as_str());
        out.append("\",cpu_model=\"");
        let model = text::escape_label_value(m.cpu_model.as_str());
        out.append(model.as_str());
        out.append("\"} 1\n");
        proof {
            assert(out@ =~= old(out)@ + node_info_block_spec(m@, true));
        }
    } else {
        proof {
            assert(old(out)@ + Seq::<char>::empty() =~= old(out)@);
        }
    }
}

/// One line of the per-type count family: the node and the escaped type
/// name as labels, the count as value.
pub open spec fn type_count_line_spec(p: (Seq<char>, u32), node: Seq<char>) -> Seq<char> {
    "hw_gpu_type_count{node=\""@ + node + "\",gpu_type=\""@ + escape_spec(p.0) + "\"} "@
        + dec_spec(p.1 as nat) + "\n"@
}

/// The lines of the per-type count family, one per table entry, in table
/// order.
pub open spec fn type_count_lines_spec(pairs: Seq<(Seq<char>, u32)>, node: Seq<char>) -> Seq<char>
    decreases pairs.len(),
{
    if pairs.len() == 0 {
        Seq::empty()
    } else {
        type_count_lines_spec(pairs.drop_last(), node) + type_count_line_spec(pairs.last(), node)
    }
}

/// The per-type count family, or nothing when disabled.
pub open spec fn type_count_block_spec(
    enabled: bool,
    pairs: Seq<(Seq<char>, u32)>,
    node: Seq<char>,
) -> Seq<char> {
    if enabled {
        "# HELP hw_gpu_type_count Number of GPUs by type per node\n"@
            + "# TYPE hw_gpu_type_count gauge\n"@ + type_count_lines_spec(pairs, node)
    } else {
        Seq::empty()
    }
}

fn render_type_count_line(name: &String, count: u32, node: &str) -> (l: String)
    ensures
        l@ == type_count_line_spec((name@, count), node@),
{
    let mut l = String::from_str("hw_gpu_type_count{node=\"");
    l.append(node);
    l.append("\",gpu_type=\"");
    let t = text::escape_label_value(name.as_str());
    l.append(t.as_str());
    l.append("\"} ");
    let c = text::u64_to_dec(count as u64);
    l.append(c.as_str());
    l.append("\n");
    l
}

fn emit_type_counts(out: &mut String, enabled: bool, pairs: &Vec<(String, u32)>, node: &str)
    ensures
        final(out)@ == old(out)@ + type_count_block_spec(enabled, pairs.deep_view(), node@),
{
    if !enabled {
        proof {
            assert(old(out)@ + Seq::<char>::empty() =~= old(out)@);
        }
        return ;
    }
    out.append("# HELP hw_gpu_type_count Number of GPUs by type per node\n");
    out.append("# TYPE hw_gpu_type_count gauge\n");
    let ghost header = old(out)@ + "# HELP hw_gpu_type_count Number of GPUs by type per node\n"@
        + "# TYPE hw_gpu_type_count gauge\n"@;
    let mut i: usize = 0;
    proof {
        assert(pairs.deep_view().subrange(0, 0) =~= Seq::<(Seq<char>, u32)>::empty());
    }
    while i < pairs.len()
        invariant
            0 <= i <= pairs.len(),
            out@ == header + type_count_lines_spec(pairs.deep_view().subrange(0, i as int), node@),
        decreases pairs.len() - i,
    {
        let line = render_type_count_line(&pairs[i].0, pairs[i].1, node);
        out.append(line.as_str());
        proof {
            let pre = pairs.deep_view().subrange(0, i as int);
            let cur = pairs.deep_view().subrange(0, i as int + 1);
            assert(cur.drop_last() =~= pre);
            assert(cur.last() == pairs.deep_view()[i as int]);
            assert(out@ =~= header + type_count_lines_spec(cur, node@));
        }
        i = i + 1;
    }
    proof {
        assert(pairs.deep_view().subrange(0, pairs.len() as int) =~= pairs.deep_view());
        assert(out@ =~= old(out)@ + type_count_block_spec(true, pairs.deep_view(), node@));
    }
}

/// The accelerator summary: total count, used count and the per-type
/// grouping, written only when the snapshot counted any devices.
pub open spec fn gpu_summary_spec(m: NodeMetricsView, e: MetricsEnabled) -> Seq<char> {
    if m.gpu_count > 0 {
        scalar_block_spec(
            e.gpu_count,
            "# HELP hw_gpu_count Total number of GPUs per node\n"@,
            "# TYPE hw_gpu_count gauge\n"@,
            "hw_gpu_count"@,
            m.node,
            dec_spec(m.gpu_count as nat),
        ) + scalar_block_spec(
            e.gpu_used_count,
            "# HELP hw_gpu_used_count Number of GPUs currently in use per node\n"@,
            "# TYPE hw_gpu_used_count gauge\n"@,
            "hw_gpu_used_count"@,
            m.node,
            dec_spec(m.gpu_used_count as nat),
        ) + type_count_block_spec(e.gpu_type_count, m.gpu_type_counts, m.node)
    } else {
        Seq::empty()
    }
}

// ---------------------------------------------------------------------------
// Per-device families
// ---------------------------------------------------------------------------

/// The per-device metric families.
#[derive(Debug, Clone, Copy, PartialEq, Eq, Structural)]
pub enum DeviceFamily {
    MemoryTotal,
    MemoryUsed,
    MemoryFree,
    Utilization,
    Temperature,
    PowerDraw,
    PowerLimit,
}

/// The metric name of a per-device family.
pub open spec fn family_name_spec(f: DeviceFamily) -> Seq<char> {
    match f {
        DeviceFamily::MemoryTotal => "hw_gpu_memory_total_bytes"@,
        DeviceFamily::MemoryUsed => "hw_gpu_memory_used_bytes"@,
        DeviceFamily::MemoryFree => "hw_gpu_memory_free_bytes"@,
        DeviceFamily::Utilization => "hw_gpu_utilization_percent"@,
        DeviceFamily::Temperature => "hw_gpu_temperature_celsius"@,
        DeviceFamily::PowerDraw => "hw_gpu_power_draw_watts"@,
        DeviceFamily::PowerLimit => "hw_gpu_power_limit_watts"@,
    }
}

/// The `# HELP` line of a per-device family.
pub open spec fn family_help_spec(f: DeviceFamily) -> Seq<char> {
    match f {
        DeviceFamily::MemoryTotal => "# HELP hw_gpu_memory_total_bytes GPU total memory in bytes\n"@,
        DeviceFamily::MemoryUsed => "# HELP hw_gpu_memory_used_bytes GPU used memory in bytes\n"@,
        DeviceFamily::MemoryFree => "# HELP hw_gpu_memory_free_bytes GPU free memory in bytes\n"@,
        DeviceFamily::Utilization => "# HELP hw_gpu_utilization_percent GPU utilization percentage\n"@,
        DeviceFamily::Temperature => "# HELP hw_gpu_temperature_celsius GPU temperature in Celsius\n"@,
        DeviceFamily::PowerDraw => "# HELP hw_gpu_power_draw_watts GPU power draw in watts\n"@,
        DeviceFamily::PowerLimit => "# HELP hw_gpu_power_limit_watts GPU power limit in watts\n"@,
    }
}

/// The `# TYPE` line of a per-device family; all are gauges.
pub open spec fn family_type_line_spec(f: DeviceFamily) -> Seq<char> {
    match f {
        DeviceFamily::MemoryTotal => "# TYPE hw_gpu_memory_total_bytes gauge\n"@,
        DeviceFamily::MemoryUsed => "# TYPE hw_gpu_memory_used_bytes gauge\n"@,
        DeviceFamily::MemoryFree => "# TYPE hw_gpu_memory_free_bytes gauge\n"@,
        DeviceFamily::Utilization => "# TYPE hw_gpu_utilization_percent gauge\n"@,
        DeviceFamily::Temperature => "# TYPE hw_gpu_temperature_celsius gauge\n"@,
        DeviceFamily::PowerDraw => "# TYPE hw_gpu_power_draw_watts gauge\n"@,
        DeviceFamily::PowerLimit => "# TYPE hw_gpu_power_limit_watts gauge\n"@,
    }
}

/// Mebibytes as bytes, held at `u64::MAX` when the product cannot fit.
pub open spec fn mb_to_bytes_sat(mb: u64) -> nat {
    if mb as nat * 1048576 > u64::MAX as nat {
        u64::MAX as nat
    } else {
        mb as nat * 1048576
    }
}

/// The value a per-device family reads off one record: memory families in
/// bytes, the rest as the record holds them.
pub open spec fn family_value_spec(f: DeviceFamily, d: GpuInfoView) -> nat {
    match f {
        DeviceFamily::MemoryTotal => mb_to_bytes_sat(d.memory_total_mb),
        DeviceFamily::MemoryUsed => mb_to_bytes_sat(d.memory_used_mb),
        DeviceFamily::MemoryFree => mb_to_bytes_sat(d.memory_free_mb),
        DeviceFamily::Utilization => d.utilization_percent as nat,
        DeviceFamily::Temperature => d.temperature_celsius as nat,
        DeviceFamily::PowerDraw => d.power_draw_watts as nat,
        DeviceFamily::PowerLimit => d.power_limit_watts as nat,
    }
}

/// One sample of a per-device family: node, index, escaped name and raw
/// identifier as labels, then the value.
pub open spec fn device_line_spec(f: DeviceFamily, d: GpuInfoView, node: Seq<char>) -> Seq<char> {
    family_name_spec(f) + "{node=\""@ + node + "\",gpu_index=\""@ + dec_spec(d.index as nat)
        + "\",gpu_name=\""@ + escape_spec(d.name) + "\",gpu_uuid=\""@ + d.uuid + "\"} "@
        + dec_spec(family_value_spec(f, d)) + "\n"@
}

/// The samples of a per-device family: one line per device, in device
/// order.
pub open spec fn device_lines_spec(
    f: DeviceFamily,
    devs: Seq<GpuInfoView>,
    node: Seq<char>,
) -> Seq<char>
    decreases devs.len(),
{
    if devs.len() == 0 {
        Seq::empty()
    } else {
        device_lines_spec(f, devs.drop_last(), node) + device_line_spec(f, devs.last(), node)
    }
}

/// One whole per-device family, or nothing when disabled.
pub open spec fn device_block_spec(
    f: DeviceFamily,
    enabled: bool,
    devs: Seq<GpuInfoView>,
    node: Seq<char>,
) -> Seq<char> {
    if enabled {
        family_help_spec(f) + family_type_line_spec(f) + device_lines_spec(f, devs, node)
    } else {
        Seq::empty()
    }
}

fn family_name(f: DeviceFamily) -> (s: &'static str)
    ensures
        s@ == family_name_spec(f),
{
    match f {
        DeviceFamily::MemoryTotal => "hw_gpu_memory_total_bytes",
        DeviceFamily::MemoryUsed => "hw_gpu_memory_used_bytes",
        DeviceFamily::MemoryFree => "hw_gpu_memory_free_bytes",
        DeviceFamily::Utilization => "hw_gpu_utilization_percent",
        DeviceFamily::Temperature => "hw_gpu_temperature_celsius",
        DeviceFamily::PowerDraw => "hw_gpu_power_draw_watts",
        DeviceFamily::PowerLimit => "hw_gpu_power_limit_watts",
    }
}

fn family_help(f: DeviceFamily) -> (s: &'static str)
    ensures
        s@ == family_help_spec(f),
{
    match f {
        DeviceFamily::MemoryTotal => "# HELP hw_gpu_memory_total_bytes GPU total memory in bytes\n",
        DeviceFamily::MemoryUsed => "# HELP hw_gpu_memory_used_bytes GPU used memory in bytes\n",
        DeviceFamily::MemoryFree => "# HELP hw_gpu_memory_free_bytes GPU free memory in bytes\n",
        DeviceFamily::Utilization => "# HELP hw_gpu_utilization_percent GPU utilization percentage\n",
        DeviceFamily::Temperature => "# HELP hw_gpu_temperature_celsius GPU temperature in Celsius\n",
        DeviceFamily::PowerDraw => "# HELP hw_gpu_power_draw_watts GPU power draw in watts\n",
        DeviceFamily::PowerLimit => "# HELP hw_gpu_power_limit_watts GPU power limit in watts\n",
    }
}

fn family_type_line(f: DeviceFamily) -> (s: &'static str)
    ensures
        s@ == family_type_line_spec(f),
{
    match f {
        DeviceFamily::MemoryTotal => "# TYPE hw_gpu_memory_total_bytes gauge\n",
        DeviceFamily::MemoryUsed => "# TYPE hw_gpu_memory_used_bytes gauge\n",
        DeviceFamily::MemoryFree => "# TYPE hw_gpu_memory_free_bytes gauge\n",
        DeviceFamily::Utilization => "# TYPE hw_gpu_utilization_percent gauge\n",
        DeviceFamily::Temperature => "# TYPE hw_gpu_temperature_celsius gauge\n",
        DeviceFamily::PowerDraw => "# TYPE hw_gpu_power_draw_watts gauge\n",
        DeviceFamily::PowerLimit => "# TYPE hw_gpu_power_limit_watts gauge\n",
    }
}

fn mb_to_bytes(mb: u64) -> (b: u64)
    ensures
        b as nat == mb_to_bytes_sat(mb),
{
    if mb > u64::MAX / 1048576 {
        proof {
            assert(mb as nat * 1048576 > u64::MAX as nat) by (nonlinear_arith)
                requires
                    mb as nat > u64::MAX as nat / 1048576,
            ;
        }
        u64::MAX
    } else {
        proof {
            assert(mb as nat * 1048576 <= u64::MAX as nat) by (nonlinear_arith)
                requires
                    mb as nat <= u64::MAX as nat / 1048576,
            ;
        }
        mb * 1048576
    }
}

fn family_value(f: DeviceFamily, d: &GpuInfo) -> (v: u64)
    ensures
        v as nat == family_value_spec(f, d@),
{
    match f {
        DeviceFamily::MemoryTotal => mb_to_bytes(d.memory_total_mb),
        DeviceFamily::MemoryUsed => mb_to_bytes(d.memory_used_mb),
        DeviceFamily::MemoryFree => mb_to_bytes(d.memory_free_mb),
        DeviceFamily::Utilization => d.utilization_percent as u64,
        DeviceFamily::Temperature => d.temperature_celsius as u64,
        DeviceFamily::PowerDraw => d.power_draw_watts as u64,
        DeviceFamily::PowerLimit => d.power_limit_watts as u64,
    }
}

fn render_device_line(f: DeviceFamily, d: &GpuInfo, node: &str) -> (l: String)
    ensures
        l@ == device_line_spec(f, d@, node@),
{
    let mut l = String::from_str(family_name(f));
    l.append("{node=\"");
    l.append(node);
    l.append("\",gpu_index=\"");
    let idx = text::u64_to_dec(d.index as u64);
    l.append(idx.as_str());
    l.append("\",gpu_name=\"");
    let nm = text::escape_label_value(d.name.as_str());
    l.append(nm.as_str());
    l.append("\",gpu_uuid=\"");
    l.append(d.uuid.as_str());
    l.append("\"} ");
    let val = text::u64_to_dec(family_value(f, d));
    l.append(val.as_str());
    l.append("\n");
    l
}

fn emit_device_family(
    out: &mut String,
    enabled: bool,
    f: DeviceFamily,
    devs: &Vec<GpuInfo>,
    node: &str,
)
    ensures
        final(out)@ == old(out)@ + device_block_spec(f, enabled, devs.deep_view(), node@),
{
    if !enabled {
        proof {
            assert(old(out)@ + Seq::<char>::empty() =~= old(out)@);
        }
        return ;
    }
    out.append(family_help(f));
    out.append(family_type_line(f));
    let ghost header = old(out)@ + family_help_spec(f) + family_type_line_spec(f);
    let mut i: usize = 0;
    proof {
        assert(devs.deep_view().subrange(0, 0) =~= Seq::<GpuInfoView>::empty());
    }
    while i < devs.len()
        invariant
            0 <= i <= devs.len(),
            out@ == header + device_lines_spec(f, devs.deep_view().subrange(0, i as int), node@),
        decreases devs.len() - i,
    {
        let line = render_device_line(f, &devs[i], node);
        out.append(line.as_str());
        proof {
            let pre = devs.deep_view().subrange(0, i as int);
            let cur = devs.deep_view().subrange(0, i as int + 1);
            assert(cur.drop_last() =~= pre);
            assert(cur.last() == devs.deep_view()[i as int]);
            assert(out@ =~= header + device_lines_spec(f, cur, node@));
        }
        i = i + 1;
    }
    proof {
        assert(devs.deep_view().subrange(0, devs.len() as int) =~= devs.deep_view());
        assert(out@ =~= old(out)@ + device_block_spec(f, true, devs.deep_view(), node@));
    }
}

/// The three per-device memory families.
pub open spec fn device_memory_spec(m: NodeMetricsView, e: MetricsEnabled) -> Seq<char> {
    device_block_spec(DeviceFamily::MemoryTotal, e.gpu_memory_total, m.gpu_devices, m.node)
        + device_block_spec(DeviceFamily::MemoryUsed, e.gpu_memory_used, m.gpu_devices, m.node)
        + device_block_spec(DeviceFamily::MemoryFree, e.gpu_memory_free, m.gpu_devices, m.node)
}

/// The four per-device sensor families: utilization, temperature, power
/// draw and power limit.
pub open spec fn device_sensor_spec(m: NodeMetricsView, e: MetricsEnabled) -> Seq<char> {
    device_block_spec(DeviceFamily::Utilization, e.gpu_utilization, m.gpu_devices, m.node)
        + device_block_spec(DeviceFamily::Temperature, e.gpu_temperature, m.gpu_devices, m.node)
        + device_block_spec(DeviceFamily::PowerDraw, e.gpu_power_draw, m.gpu_devices, m.node)
        + device_block_spec(DeviceFamily::PowerLimit, e.gpu_power_limit, m.gpu_devices, m.node)
}

/// The per-device section: the seven device families, written only when
/// the snapshot holds any device records.
pub open spec fn device_section_spec(m: NodeMetricsView, e: MetricsEnabled) -> Seq<char> {
    if m.gpu_devices.len() > 0 {
        device_memory_spec(m, e) + device_sensor_spec(m, e)
    } else {
        Seq::empty()
    }
}

// ---------------------------------------------------------------------------
// The whole exposition
// ---------------------------------------------------------------------------

/// The node-identity section: the information sample and the uptime
/// counter.
pub open spec fn node_section_spec(m: NodeMetricsView, e: MetricsEnabled) -> Seq<char> {
    node_info_block_spec(m, e.node_info) + scalar_block_spec(
        e.node_uptime,
        "# HELP hw_node_uptime_seconds Node uptime in seconds\n"@,
        "# TYPE hw_node_uptime_seconds counter\n"@,
        "hw_node_uptime_seconds"@,
        m.node,
        dec_spec(m.uptime_secs as nat),
    )
}

/// The CPU section: core and thread counts, usage, cores in use.
pub open spec fn cpu_section_spec(m: NodeMetricsView, e: MetricsEnabled) -> Seq<char> {
    scalar_block_spec(
        e.cpu_cores,
        "# HELP hw_cpu_cores Number of physical CPU cores\n"@,
        "# TYPE hw_cpu_cores gauge\n"@,
        "hw_cpu_cores"@,
        m.node,
        dec_spec(m.cpu_cores as nat),
    ) + scalar_block_spec(
        e.cpu_threads,
        "# HELP hw_cpu_threads Number of CPU threads\n"@,
        "# TYPE hw_cpu_threads gauge\n"@,
        "hw_cpu_threads"@,
        m.node,
        dec_spec(m.cpu_threads as nat),
    ) + scalar_block_spec(
        e.cpu_usage,
        "# HELP hw_cpu_usage_percent CPU usage percentage\n"@,
        "# TYPE hw_cpu_usage_percent gauge\n"@,
        "hw_cpu_usage_percent"@,
        m.node,
        centi_spec(m.cpu_usage_centipercent as nat),
    ) + scalar_block_spec(
        e.cpu_used_cores,
        "# HELP hw_cpu_used_cores Number of CPU cores currently in use\n"@,
        "# TYPE hw_cpu_used_cores gauge\n"@,
        "hw_cpu_used_cores"@,
        m.node,
        centi_spec(m.cpu_used_cores_centi as nat),
    )
}

/// The memory section: totals, availability and usage.
pub open spec fn memory_section_spec(m: NodeMetricsView, e: MetricsEnabled) -> Seq<char> {
    scalar_block_spec(
        e.memory_total,
        "# HELP hw_memory_total_bytes Total memory in bytes\n"@,
        "# TYPE hw_memory_total_bytes gauge\n"@,
        "hw_memory_total_bytes"@,
        m.node,
        dec_spec(m.memory_total_bytes as nat),
    ) + scalar_block_spec(
        e.memory_used,
        "# HELP hw_memory_used_bytes Used memory in bytes\n"@,
        "# TYPE hw_memory_used_bytes gauge\n"@,
        "hw_memory_used_bytes"@,
        m.node,
        dec_spec(m.memory_used_bytes as nat),
    ) + scalar_block_spec(
        e.memory_available,
        "# HELP hw_memory_available_bytes Available memory in bytes\n"@,
        "# TYPE hw_memory_available_bytes gauge\n"@,
        "hw_memory_available_bytes"@,
        m.node,
        dec_spec(m.memory_available_bytes as nat),
    ) + scalar_block_spec(
        e.memory_usage,
        "# HELP hw_memory_usage_percent Memory usage percentage\n"@,
        "# TYPE hw_memory_usage_percent gauge\n"@,
        "hw_memory_usage_percent"@,
        m.node,
        centi_spec(m.memory_usage_centipercent as nat),
    )
}

/// The node and host sections of the exposition: identity, uptime, CPU
/// and memory families, in fixed order.
pub open spec fn scalars_spec(m: NodeMetricsView, e: MetricsEnabled) -> Seq<char> {
    node_section_spec(m, e) + cpu_section_spec(m, e) + memory_section_spec(m, e)
}

/// The complete text exposition of one metrics value under one enable
/// matrix: every enabled family's `# HELP` line, `# TYPE` line and
/// samples, in fixed order; accelerator families only when devices are
/// present.
pub open spec fn prom_spec(m: NodeMetricsView, e: MetricsEnabled) -> Seq<char> {
    scalars_spec(m, e) + gpu_summary_spec(m, e) + device_section_spec(m, e)
}


fn emit_node_section(out: &mut String, m: &NodeMetrics, enabled: &MetricsEnabled)
    ensures
        final(out)@ == old(out)@ + node_section_spec(m@, *enabled),
{
    emit_node_info(out, enabled.node_info, m);
    let d_uptime = text::u64_to_dec(m.uptime_secs);
    emit_scalar(
        out,
        enabled.node_uptime,
        "# HELP hw_node_uptime_seconds Node uptime in seconds\n",
        "# TYPE hw_node_uptime_seconds counter\n",
        "hw_node_uptime_seconds",
        m.node.as_str(),
        &d_uptime,
    );
    proof {
        assert(out@ =~= old(out)@ + node_section_spec(m@, *enabled));
    }
}

fn emit_cpu_section(out: &mut String, m: &NodeMetrics, enabled: &MetricsEnabled)
    ensures
        final(out)@ == old(out)@ + cpu_section_spec(m@, *enabled),
{
    let d_cores = text::u64_to_dec(m.cpu_cores as u64);
    emit_scalar(
        out,
        enabled.cpu_cores,
        "# HELP hw_cpu_cores Number of physical CPU cores\n",
        "# TYPE hw_cpu_cores gauge\n",
        "hw_cpu_cores",
        m.node.as_str(),
        &d_cores,
    );
    let d_threads = text::u64_to_dec(m.cpu_threads as u64);
    emit_scalar(
        out,
        enabled.cpu_threads,
        "# HELP hw_cpu_threads Number of CPU threads\n",
        "# TYPE hw_cpu_threads gauge\n",
        "hw_cpu_threads",
        m.node.as_str(),
        &d_threads,
    );
    let d_usage = text::centi_to_dec(m.cpu_usage_centipercent);
    emit_scalar(
        out,
        enabled.cpu_usage,
        "# HELP hw_cpu_usage_percent CPU usage percentage\n",
        "# TYPE hw_cpu_usage_percent gauge\n",
        "hw_cpu_usage_percent",
        m.node.as_str(),
        &d_usage,
    );
    let d_used_cores = text::centi_to_dec(m.cpu_used_cores_centi);
    emit_scalar(
        out,
        enabled.cpu_used_cores,
        "# HELP hw_cpu_used_cores Number of CPU cores currently in use\n",
        "# TYPE hw_cpu_used_cores gauge\n",
        "hw_cpu_used_cores",
        m.node.as_str(),
        &d_used_cores,
    );
    proof {
        assert(out@ =~= old(out)@ + cpu_section_spec(m@, *enabled));
    }
}

fn emit_memory_section(out: &mut String, m: &NodeMetrics, enabled: &MetricsEnabled)
    ensures
        final(out)@ == old(out)@ + memory_section_spec(m@, *enabled),
{
    let d_mem_total = text::u64_to_dec(m.memory_total_bytes);
    emit_scalar(
        out,
        enabled.memory_total,
        "# HELP hw_memory_total_bytes Total memory in bytes\n",
        "# TYPE hw_memory_total_bytes gauge\n",
        "hw_memory_total_bytes",
        m.node.as_str(),
        &d_mem_total,
    );
    let d_mem_used = text::u64_to_dec(m.memory_used_bytes);
    emit_scalar(
        out,
        enabled.memory_used,
        "# HELP hw_memory_used_bytes Used memory in bytes\n",
        "# TYPE hw_memory_used_bytes gauge\n",
        "hw_memory_used_bytes",
        m.node.as_str(),
        &d_mem_used,
    );
    let d_mem_avail = text::u64_to_dec(m.memory_available_bytes);
    emit_scalar(
        out,
        enabled.memory_available,
        "# HELP hw_memory_available_bytes Available memory in bytes\n",
        "# TYPE hw_memory_available_bytes gauge\n",
        "hw_memory_available_bytes",
        m.node.as_str(),
        &d_mem_avail,
    );
    let d_mem_usage = text::centi_to_dec(m.memory_usage_centipercent);
    emit_scalar(
        out,
        enabled.memory_usage,
        "# HELP hw_memory_usage_percent Memory usage percentage\n",
        "# TYPE hw_memory_usage_percent gauge\n",
        "hw_memory_usage_percent",
        m.node.as_str(),
        &d_mem_usage,
    );
    proof {
        assert(out@ =~= old(out)@ + memory_section_spec(m@, *enabled));
    }
}

fn emit_scalars(out: &mut String, m: &NodeMetrics, enabled: &MetricsEnabled)
    ensures
        final(out)@ == old(out)@ + scalars_spec(m@, *enabled),
{
    emit_node_section(out, m, enabled);
    emit_cpu_section(out, m, enabled);
    emit_memory_section(out, m, enabled);
    proof {
        assert(out@ =~= old(out)@ + scalars_spec(m@, *enabled));
    }
}

fn emit_gpu_summary(out: &mut String, m: &NodeMetrics, enabled: &MetricsEnabled)
    ensures
        final(out)@ == old(out)@ + gpu_summary_spec(m@, *enabled),
{
    if m.gpu_count > 0 {
        let d_gpu_count = text::u64_to_dec(m.gpu_count as u64);
        emit_scalar(
            out,
            enabled.gpu_count,
            "# HELP hw_gpu_count Total number of GPUs per node\n",
            "# TYPE hw_gpu_count gauge\n",
            "hw_gpu_count",
            m.node.as_str(),
            &d_gpu_count,
        );
        let d_gpu_used = text::u64_to_dec(m.gpu_used_count as u64);
        emit_scalar(
            out,
            enabled.gpu_used_count,
            "# HELP hw_gpu_used_count Number of GPUs currently in use per node\n",
            "# TYPE hw_gpu_used_count gauge\n",
            "hw_gpu_used_count",
            m.node.as_str(),
            &d_gpu_used,
        );
        emit_type_counts(out, enabled.gpu_type_count, &m.gpu_type_counts, m.node.as_str());
        proof {
            assert(out@ =~= old(out)@ + gpu_summary_spec(m@, *enabled));
        }
    } else {
        proof {
            assert(old(out)@ + Seq::<char>::empty() =~= old(out)@);
        }
    }
}


fn emit_device_memory(out: &mut String, m: &NodeMetrics, enabled: &MetricsEnabled)
    ensures
        final(out)@ == old(out)@ + device_memory_spec(m@, *enabled),
{
    emit_device_family(
        out,
        enabled.gpu_memory_total,
        DeviceFamily::MemoryTotal,
        &m.gpu_devices,
        m.node.as_str(),
    );
    emit_device_family(
        out,
        enabled.gpu_memory_used,
        DeviceFamily::MemoryUsed,
        &m.gpu_devices,
        m.node.as_str(),
    );
    emit_device_family(
        out,
        enabled.gpu_memory_free,
        DeviceFamily::MemoryFree,
        &m.gpu_devices,
        m.node.as_str(),
    );
    proof {
        assert(out@ =~= old(out)@ + device_memory_spec(m@, *enabled));
    }
}

fn emit_device_sensors(out: &mut String, m: &NodeMetrics, enabled: &MetricsEnabled)
    ensures
        final(out)@ == old(out)@ + device_sensor_spec(m@, *enabled),
{
    emit_device_family(
        out,
        enabled.gpu_utilization,
        DeviceFamily::Utilization,
        &m.gpu_devices,
        m.node.as_str(),
    );
    emit_device_family(
        out,
        enabled.gpu_temperature,
        DeviceFamily::Temperature,
        &m.gpu_devices,
        m.node.as_str(),
    );
    emit_device_family(
        out,
        enabled.gpu_power_draw,
        DeviceFamily::PowerDraw,
        &m.gpu_devices,
        m.node.as_str(),
    );
    emit_device_family(
        out,
        enabled.gpu_power_limit,
        DeviceFamily::PowerLimit,
        &m.gpu_devices,
        m.node.as_str(),
    );
    proof {
        assert(out@ =~= old(out)@ + device_sensor_spec(m@, *enabled));
    }
}

fn emit_device_section(out: &mut String, m: &NodeMetrics, enabled: &MetricsEnabled)
    ensures
        final(out)@ == old(out)@ + device_section_spec(m@, *enabled),
{
    if m.gpu_devices.len() > 0 {
        emit_device_memory(out, m, enabled);
        emit_device_sensors(out, m, enabled);
        proof {
            assert(out@ =~= old(out)@ + device_section_spec(m@, *enabled));
        }
    } else {
        proof {
            assert(old(out)@ + Seq::<char>::empty() =~= old(out)@);
        }
    }
}

impl NodeMetrics {
    /// Renders these metrics in the Prometheus text exposition format,
    /// family by family under the enable matrix. The whole output is a
    /// function of the inputs alone: rendering the same value twice gives
    /// byte-identical text.
    pub fn to_prometheus(&self, enabled: &MetricsEnabled) -> (r: String)
        ensures
            r@ == prom_spec(self@, *enabled),
    {
        let mut out = String::new();
        emit_scalars(&mut out, self, enabled);
        proof {
            assert(out@ =~= scalars_spec(self@, *enabled));
        }
        emit_gpu_summary(&mut out, self, enabled);
        emit_device_section(&mut out, self, enabled);
        proof {
            assert(out@ =~= prom_spec(self@, *enabled));
        }
        out
    }
}


// ---------------------------------------------------------------------------
// Shape of the rendered output
// ---------------------------------------------------------------------------

/// A sequence of lines laid end to end.
pub open spec fn concat_all(lines: Seq<Seq<char>>) -> Seq<char>
    decreases lines.len(),
{
    if lines.len() == 0 {
        Seq::empty()
    } else {
        concat_all(lines.drop_last()) + lines.last()
    }
}

/// The rendered lines of a per-device family, one per device record, in
/// device order.
pub open spec fn device_line_seq(
    f: DeviceFamily,
    devs: Seq<GpuInfoView>,
    node: Seq<char>,
) -> Seq<Seq<char>> {
    devs.map(|i: int, d: GpuInfoView| device_line_spec(f, d, node))
}

/// A snapshot with `N` device records yields exactly `N` sample lines in
/// each per-device family: the family's sample text is the concatenation
/// of one rendered line per record, in order.
pub proof fn lemma_one_line_per_device(f: DeviceFamily, devs: Seq<GpuInfoView>, node: Seq<char>)
    ensures
        device_line_seq(f, devs, node).len() == devs.len(),
        device_lines_spec(f, devs, node) == concat_all(device_line_seq(f, devs, node)),
        forall|i: int|
            0 <= i < devs.len() ==> #[trigger] device_line_seq(f, devs, node)[i]
                == device_line_spec(f, devs[i], node),
    decreases devs.len(),
{
    if devs.len() > 0 {
        lemma_one_line_per_device(f, devs.drop_last(), node);
        assert(device_line_seq(f, devs.drop_last(), node) =~= device_line_seq(
            f,
            devs,
            node,
        ).drop_last());
    }
}

/// Every rendered sample line is nonempty and ends with a newline.
pub proof fn lemma_device_line_ends_with_newline(f: DeviceFamily, d: GpuInfoView, node: Seq<char>)
    ensures
        device_line_spec(f, d, node).len() > 0,
        device_line_spec(f, d, node).last() == '\n',
{
    reveal_strlit("\n");
}

/// Rendering is a function of the metrics and the enable matrix alone:
/// any two renderings of equal inputs are character-for-character equal,
/// so reformatting the same snapshot yields byte-identical output.
pub proof fn lemma_render_deterministic(
    m: NodeMetricsView,
    e: MetricsEnabled,
    a: Seq<char>,
    b: Seq<char>,
)
    requires
        a == prom_spec(m, e),
        b == prom_spec(m, e),
    ensures
        a == b,
{
}


proof fn lemma_dec_no_newline(n: nat)
    ensures
        has_no_char(dec_spec(n), '\n'),
    decreases n,
{
    assert(digit_char(n % 10) != '\n');
    assert(digit_char(n) != '\n');
    if n >= 10 {
        lemma_dec_no_newline(n / 10);
        assert forall|i: int| 0 <= i < dec_spec(n).len() implies dec_spec(n)[i] != '\n' by {
            if i < dec_spec(n / 10).len() {
                assert(dec_spec(n)[i] == dec_spec(n / 10)[i]);
            }
        }
    }
}

proof fn lemma_escape_no_newline(s: Seq<char>)
    ensures
        has_no_char(escape_spec(s), '\n'),
    decreases s.len(),
{
    if s.len() > 0 {
        lemma_escape_no_newline(s.drop_last());
        let pre = escape_spec(s.drop_last());
        let tail = crate::text::escape_char_spec(s.last());
        assert(has_no_char(tail, '\n'));
        assert forall|i: int| 0 <= i < escape_spec(s).len() implies escape_spec(s)[i] != '\n' by {
            if i < pre.len() {
                assert(escape_spec(s)[i] == pre[i]);
            } else {
                assert(escape_spec(s)[i] == tail[i - pre.len()]);
            }
        }
    }
}

proof fn lemma_family_name_no_newline(f: DeviceFamily)
    ensures
        has_no_char(family_name_spec(f), '\n'),
{
    reveal_strlit("hw_gpu_memory_total_bytes");
    reveal_strlit("hw_gpu_memory_used_bytes");
    reveal_strlit("hw_gpu_memory_free_bytes");
    reveal_strlit("hw_gpu_utilization_percent");
    reveal_strlit("hw_gpu_temperature_celsius");
    reveal_strlit("hw_gpu_power_draw_watts");
    reveal_strlit("hw_gpu_power_limit_watts");
}

proof fn lemma_device_line_single_newline(f: DeviceFamily, d: GpuInfoView, node: Seq<char>)
    requires
        has_no_char(node, '\n'),
        has_no_char(d.uuid, '\n'),
    ensures
        count_char(device_line_spec(f, d, node), '\n') == 1,
{
    reveal_strlit("{node=\"");
    reveal_strlit("\",gpu_index=\"");
    reveal_strlit("\",gpu_name=\"");
    reveal_strlit("\",gpu_uuid=\"");
    reveal_strlit("\"} ");
    reveal_strlit("\n");
    lemma_family_name_no_newline(f);
    lemma_dec_no_newline(d.index as nat);
    lemma_dec_no_newline(family_value_spec(f, d));
    lemma_escape_no_newline(d.name);
    let body = family_name_spec(f) + "{node=\""@ + node + "\",gpu_index=\""@ + dec_spec(
        d.index as nat,
    ) + "\",gpu_name=\""@ + escape_spec(d.name) + "\",gpu_uuid=\""@ + d.uuid + "\"} "@ + dec_spec(
        family_value_spec(f, d),
    );
    assert(has_no_char(body, '\n'));
    crate::text::lemma_count_char_absent(body, '\n');
    crate::text::lemma_count_char_concat(body, "\n"@, '\n');
    assert("\n"@ =~= seq!['\n']);
    assert(seq!['\n'].drop_last() =~= Seq::<char>::empty());
    assert(count_char(Seq::<char>::empty(), '\n') == 0);
    assert(count_char(seq!['\n'], '\n') == 1);
    assert(count_char("\n"@, '\n') == 1);
    assert(device_line_spec(f, d, node) == body + "\n"@);
}

/// Counted by raw newlines: when neither the node label nor any device
/// identifier carries one, a per-device family's sample text holds exactly
/// one newline per device — `N` devices, `N` sample lines.
pub proof fn lemma_family_newline_count(f: DeviceFamily, devs: Seq<GpuInfoView>, node: Seq<char>)
    requires
        has_no_char(node, '\n'),
        forall|i: int| 0 <= i < devs.len() ==> has_no_char((#[trigger] devs[i]).uuid, '\n'),
    ensures
        count_char(device_lines_spec(f, devs, node), '\n') == devs.len(),
    decreases devs.len(),
{
    if devs.len() > 0 {
        let pre = devs.drop_last();
        assert forall|i: int| 0 <= i < pre.len() implies has_no_char(
            (#[trigger] pre[i]).uuid,
            '\n',
        ) by {
            assert(pre[i] == devs[i]);
        }
        lemma_family_newline_count(f, pre, node);
        lemma_device_line_single_newline(f, devs.last(), node);
        crate::text::lemma_count_char_concat(
            device_lines_spec(f, pre, node),
            device_line_spec(f, devs.last(), node),
            '\n',
        );
    }
}

} // verus!
