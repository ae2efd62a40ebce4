use system_info_exporter::gpu::{
    parse_int_value, parse_mib_value, parse_nvidia_smi_output, parse_percent_value,
    parse_watts_value,
};

#[test]
fn mib_plain_number() {
    assert_eq!(parse_mib_value("24576"), 24576);
}

#[test]
fn mib_with_suffix() {
    assert_eq!(parse_mib_value("24576 MiB"), 24576);
    assert_eq!(parse_mib_value("512 MB"), 512);
}

#[test]
fn mib_with_whitespace() {
    assert_eq!(parse_mib_value("  16384 MiB  "), 16384);
}

#[test]
fn mib_garbage_defaults_to_zero() {
    assert_eq!(parse_mib_value("[N/A]"), 0);
    assert_eq!(parse_mib_value(""), 0);
    assert_eq!(parse_mib_value("abc"), 0);
    assert_eq!(parse_mib_value("12.5"), 0);
}

#[test]
fn percent_plain_and_suffixed() {
    assert_eq!(parse_percent_value("45"), 45);
    assert_eq!(parse_percent_value("45 %"), 45);
    assert_eq!(parse_percent_value("45%"), 45);
}

#[test]
fn percent_sentinels_are_zero() {
    assert_eq!(parse_percent_value("N/A"), 0);
    assert_eq!(parse_percent_value("[N/A]"), 0);
    assert_eq!(parse_percent_value("[Unknown]"), 0);
}

#[test]
fn int_value_rules() {
    assert_eq!(parse_int_value("45"), 45);
    assert_eq!(parse_int_value(" 45 "), 45);
    assert_eq!(parse_int_value("N/A"), 0);
    assert_eq!(parse_int_value("4.5"), 0);
}

#[test]
fn watts_truncates_fraction() {
    assert_eq!(parse_watts_value("70.50 W"), 70);
    assert_eq!(parse_watts_value("70.00 W"), 70);
    assert_eq!(parse_watts_value("150.99"), 150);
    assert_eq!(parse_watts_value("150"), 150);
}

#[test]
fn watts_sentinels_and_garbage_are_zero() {
    assert_eq!(parse_watts_value("N/A"), 0);
    assert_eq!(parse_watts_value("[N/A]"), 0);
    assert_eq!(parse_watts_value(""), 0);
    assert_eq!(parse_watts_value("watts"), 0);
    assert_eq!(parse_watts_value("1.2.3"), 0);
}

#[test]
fn full_line_yields_expected_record() {
    let line = "0, Tesla T4, GPU-abc123, 16384 MiB, 2048 MiB, 14336 MiB, 23 %, 45, 70.50 W, 70.00 W";
    let gpus = parse_nvidia_smi_output(line);
    assert_eq!(gpus.len(), 1);
    let g = &gpus[0];
    assert_eq!(g.index, 0);
    assert_eq!(g.name, "Tesla T4");
    assert_eq!(g.uuid, "GPU-abc123");
    assert_eq!(g.memory_total_mb, 16384);
    assert_eq!(g.memory_used_mb, 2048);
    assert_eq!(g.memory_free_mb, 14336);
    assert_eq!(g.utilization_percent, 23);
    assert_eq!(g.temperature_celsius, 45);
    assert_eq!(g.power_draw_watts, 70);
    assert_eq!(g.power_limit_watts, 70);
}

#[test]
fn bracketed_utilization_affects_only_that_field() {
    let line = "0, Tesla T4, GPU-abc123, 16384 MiB, 2048 MiB, 14336 MiB, [N/A], 45, 70.50 W, 70.00 W";
    let gpus = parse_nvidia_smi_output(line);
    assert_eq!(gpus.len(), 1);
    let g = &gpus[0];
    assert_eq!(g.utilization_percent, 0);
    assert_eq!(g.memory_total_mb, 16384);
    assert_eq!(g.memory_used_mb, 2048);
    assert_eq!(g.memory_free_mb, 14336);
    assert_eq!(g.temperature_celsius, 45);
    assert_eq!(g.power_draw_watts, 70);
    assert_eq!(g.power_limit_watts, 70);
}

#[test]
fn malformed_fields_default_without_dropping_record() {
    let line = "x, GPU, uuid-1, bad, bad, bad, bad, bad, bad, bad";
    let gpus = parse_nvidia_smi_output(line);
    assert_eq!(gpus.len(), 1);
    let g = &gpus[0];
    assert_eq!(g.index, 0);
    assert_eq!(g.name, "GPU");
    assert_eq!(g.uuid, "uuid-1");
    assert_eq!(g.memory_total_mb, 0);
    assert_eq!(g.utilization_percent, 0);
    assert_eq!(g.power_draw_watts, 0);
}

#[test]
fn short_line_is_dropped_without_harming_siblings() {
    let with_bad = "0, A, u0, 1, 1, 1, 1, 1, 1, 1\nonly, three, fields\n1, B, u1, 2, 2, 2, 2, 2, 2, 2";
    let without_bad = "0, A, u0, 1, 1, 1, 1, 1, 1, 1\n1, B, u1, 2, 2, 2, 2, 2, 2, 2";
    let a = parse_nvidia_smi_output(with_bad);
    let b = parse_nvidia_smi_output(without_bad);
    assert_eq!(a.len(), 2);
    assert_eq!(a, b);
    assert_eq!(a[0].name, "A");
    assert_eq!(a[1].name, "B");
}

#[test]
fn blank_lines_are_ignored() {
    let out = "\n\n0, A, u0, 1, 1, 1, 1, 1, 1, 1\n\n";
    let gpus = parse_nvidia_smi_output(out);
    assert_eq!(gpus.len(), 1);
}

#[test]
fn empty_output_yields_no_records() {
    assert_eq!(parse_nvidia_smi_output("").len(), 0);
}

#[test]
fn windows_line_endings_are_tolerated() {
    let out = "0, A, u0, 1, 1, 1, 1, 1, 1, 1\r\n1, B, u1, 2, 2, 2, 2, 2, 2, 2\r\n";
    let gpus = parse_nvidia_smi_output(out);
    assert_eq!(gpus.len(), 2);
    assert_eq!(gpus[1].uuid, "u1");
}
