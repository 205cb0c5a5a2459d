use instance_monitor::error::AppError;
use instance_monitor::metric_registry::MetricRegistry;
use instance_monitor::numtext::{decimal_text, memory_milli_percent, memory_percent_text, milli_percent_text};
use instance_monitor::system_monitor::{init_monitor_metrics, instance_or_unknown, record_sample};

#[test]
fn decimal_text_renders_plain_integers() {
    assert_eq!(decimal_text(0), "0");
    assert_eq!(decimal_text(7), "7");
    assert_eq!(decimal_text(100), "100");
    assert_eq!(decimal_text(12345), "12345");
    assert_eq!(decimal_text(u64::MAX), "18446744073709551615");
}

#[test]
fn milli_percent_text_strips_trailing_zeros() {
    assert_eq!(milli_percent_text(0), "0");
    assert_eq!(milli_percent_text(37500), "37.5");
    assert_eq!(milli_percent_text(63891), "63.891");
    assert_eq!(milli_percent_text(12050), "12.05");
    assert_eq!(milli_percent_text(100000), "100");
    assert_eq!(milli_percent_text(5), "0.005");
    assert_eq!(milli_percent_text(10), "0.01");
    assert_eq!(milli_percent_text(1000), "1");
}

#[test]
fn memory_percentage_matches_expected_value() {
    assert_eq!(memory_milli_percent(6000000000, 16000000000), 37500);
    assert_eq!(memory_percent_text(6000000000, 16000000000), "37.5");
}

#[test]
fn zero_total_memory_yields_defined_value() {
    assert_eq!(memory_milli_percent(123, 0), 0);
    assert_eq!(memory_percent_text(123, 0), "0");
    assert_eq!(memory_percent_text(0, 0), "0");
}

#[test]
fn memory_percentage_edge_values() {
    assert_eq!(memory_percent_text(0, 16000000000), "0");
    assert_eq!(memory_percent_text(16000000000, 16000000000), "100");
    // 1/3 truncates at thousandths of a percent
    assert_eq!(memory_percent_text(1, 3), "33.333");
}

#[test]
fn instance_label_falls_back_to_unknown() {
    assert_eq!(instance_or_unknown(Some("10.0.0.5".to_string())), "10.0.0.5");
    assert_eq!(instance_or_unknown(None), "unknown");
}

#[test]
fn record_sample_before_init_is_not_found() {
    let registry = MetricRegistry::new();
    let r = record_sample(&registry, "12.4".to_string(), 1, 2);
    assert_eq!(r, Err(AppError::NotFound));
    assert_eq!(registry.get_prometheus_metrics().unwrap(), "\n");
}

#[test]
fn init_then_sample_exposes_both_gauges() {
    let registry = MetricRegistry::new();
    init_monitor_metrics(&registry, "h1").unwrap();
    record_sample(&registry, "12.4".to_string(), 6000000000, 16000000000).unwrap();
    let body = registry.get_prometheus_metrics().unwrap();
    assert_eq!(
        body,
        "cpu_usage{instance=\"h1\"} 12.4\nmemory_usage{instance=\"h1\"} 37.5\n"
    );
}

#[test]
fn init_is_idempotent_and_keeps_values() {
    let registry = MetricRegistry::new();
    init_monitor_metrics(&registry, "h1").unwrap();
    record_sample(&registry, "50".to_string(), 1, 2).unwrap();
    // a second init must not reset values or duplicate the gauges, though it
    // appends its instance label again (labels are append-only by design)
    init_monitor_metrics(&registry, "h1").unwrap();
    let body = registry.get_prometheus_metrics().unwrap();
    assert_eq!(
        body,
        "cpu_usage{instance=\"h1\",instance=\"h1\"} 50\nmemory_usage{instance=\"h1\",instance=\"h1\"} 50\n"
    );
}

#[test]
fn memory_percentage_saturates_at_u64_max() {
    // a degenerate ratio far above 100% cannot overflow; it saturates
    assert_eq!(memory_milli_percent(u64::MAX, 1), u64::MAX);
    assert_eq!(memory_percent_text(u64::MAX, 1), "18446744073709551.615");
}
