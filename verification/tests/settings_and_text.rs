use system_info_exporter::config::{
    default_true, MetricsEnabled, MetricsSettings, ServerSettings, Settings,
};
use system_info_exporter::error::AppError;
use system_info_exporter::hostinfo::parse_os_release;
use system_info_exporter::text::{
    centi_to_dec, escape_label_value, parse_u32, parse_u64, split_str, trim, u64_to_dec,
};

#[test]
fn defaults_when_nothing_was_parsed() {
    let s = Settings::load(None);
    assert_eq!(s.server.host, "0.0.0.0");
    assert_eq!(s.server.port, 8080);
    assert_eq!(s.metrics.collect_interval_secs, 15);
    assert!(s.metrics.enabled.node_info);
    assert!(s.metrics.enabled.gpu_power_limit);
}

#[test]
fn parsed_settings_are_adopted_unchanged() {
    let mut enabled = MetricsEnabled::default();
    enabled.gpu_temperature = false;
    let custom = Settings {
        server: ServerSettings { host: String::from("127.0.0.1"), port: 9100 },
        metrics: MetricsSettings { collect_interval_secs: 30, enabled },
    };
    let s = Settings::load(Some(custom));
    assert_eq!(s.server.host, "127.0.0.1");
    assert_eq!(s.server.port, 9100);
    assert_eq!(s.metrics.collect_interval_secs, 30);
    assert!(!s.metrics.enabled.gpu_temperature);
    assert!(s.metrics.enabled.gpu_power_draw);
}

#[test]
fn every_flag_defaults_on() {
    let e = MetricsEnabled::default();
    assert!(default_true());
    assert!(
        e.node_info
            && e.node_uptime
            && e.cpu_cores
            && e.cpu_threads
            && e.cpu_usage
            && e.cpu_used_cores
            && e.memory_total
            && e.memory_used
            && e.memory_available
            && e.memory_usage
            && e.gpu_count
            && e.gpu_used_count
            && e.gpu_type_count
            && e.gpu_memory_total
            && e.gpu_memory_used
            && e.gpu_memory_free
            && e.gpu_utilization
            && e.gpu_temperature
            && e.gpu_power_draw
            && e.gpu_power_limit
    );
}

#[test]
fn error_messages_carry_their_category() {
    assert_eq!(AppError::Config(String::from("x")).message(), "Configuration error: x");
    assert_eq!(AppError::Metrics(String::from("y")).message(), "Metrics collection error: y");
    assert_eq!(AppError::Internal(String::from("z")).message(), "Internal server error: z");
}

#[test]
fn os_release_with_both_entries() {
    let content = "NAME=\"Ubuntu\"\nVERSION=\"22.04.3 LTS\"\nVERSION_ID=\"22.04\"\n";
    let r = parse_os_release(content);
    assert_eq!(r, Some((String::from("Ubuntu"), String::from("22.04"))));
}

#[test]
fn os_release_without_version_yields_nothing() {
    assert_eq!(parse_os_release("NAME=\"Ubuntu\"\n"), None);
    assert_eq!(parse_os_release(""), None);
}

#[test]
fn os_release_values_may_be_unquoted() {
    let content = "VERSION_ID=12\nNAME=Debian\n";
    let r = parse_os_release(content);
    assert_eq!(r, Some((String::from("Debian"), String::from("12"))));
}

#[test]
fn trim_strips_surrounding_whitespace() {
    assert_eq!(trim("  a b \t\r\n"), "a b");
    assert_eq!(trim(""), "");
    assert_eq!(trim(" \t "), "");
}

#[test]
fn split_keeps_empty_segments() {
    let parts = split_str("a,,b,", ',');
    assert_eq!(parts, vec!["a", "", "b", ""]);
    assert_eq!(split_str("", ','), vec![""]);
}

#[test]
fn integer_parsing_is_exact() {
    assert_eq!(parse_u64("0"), Some(0));
    assert_eq!(parse_u64("18446744073709551615"), Some(u64::MAX));
    assert_eq!(parse_u64("18446744073709551616"), None);
    assert_eq!(parse_u64(""), None);
    assert_eq!(parse_u64("1 2"), None);
    assert_eq!(parse_u32("4294967295"), Some(u32::MAX));
    assert_eq!(parse_u32("4294967296"), None);
}

#[test]
fn decimal_rendering_is_exact() {
    assert_eq!(u64_to_dec(0), "0");
    assert_eq!(u64_to_dec(42), "42");
    assert_eq!(u64_to_dec(u64::MAX), "18446744073709551615");
}

#[test]
fn centi_rendering_pads_two_digits() {
    assert_eq!(centi_to_dec(0), "0.00");
    assert_eq!(centi_to_dec(5), "0.05");
    assert_eq!(centi_to_dec(50), "0.50");
    assert_eq!(centi_to_dec(1234), "12.34");
    assert_eq!(centi_to_dec(10000), "100.00");
}

#[test]
fn escaping_matches_the_exposition_rules() {
    assert_eq!(escape_label_value("plain"), "plain");
    assert_eq!(escape_label_value("a\\b"), "a\\\\b");
    assert_eq!(escape_label_value("a\"b"), "a\\\"b");
    assert_eq!(escape_label_value("a\nb"), "a\\nb");
}
