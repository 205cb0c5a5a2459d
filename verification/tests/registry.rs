use instance_monitor::error::AppError;
use instance_monitor::metric_registry::{MetricRegistry, MetricTable};
use instance_monitor::metric::{Metric, MetricType};

#[test]
fn register_creates_zero_valued_gauge() {
    let registry = MetricRegistry::new();
    registry.register_metric("x", MetricType::Gauge).unwrap();
    let body = registry.get_prometheus_metrics().unwrap();
    assert_eq!(body, "x 0\n");
}

#[test]
fn register_is_idempotent() {
    let registry = MetricRegistry::new();
    registry.register_metric("x", MetricType::Gauge).unwrap();
    registry.add_label("x", "a", "1").unwrap();
    registry.update_metric("x", "5".to_string()).unwrap();
    let before = registry.get_prometheus_metrics().unwrap();
    registry.register_metric("x", MetricType::Gauge).unwrap();
    let after = registry.get_prometheus_metrics().unwrap();
    assert_eq!(before, after);
    assert_eq!(after, "x{a=\"1\"} 5\n");
    let m = registry.get_metric("x").unwrap();
    assert_eq!(m.value, "5");
    assert_eq!(m.labels, vec![("a".to_string(), "1".to_string())]);
}

#[test]
fn update_before_register_is_not_found() {
    let registry = MetricRegistry::new();
    let r = registry.update_metric("unregistered", "1".to_string());
    assert_eq!(r, Err(AppError::NotFound));
    assert!(registry.get_metric("unregistered").is_none());
    assert_eq!(registry.get_prometheus_metrics().unwrap(), "\n");
}

#[test]
fn empty_name_is_rejected() {
    let registry = MetricRegistry::new();
    assert_eq!(
        registry.register_metric("", MetricType::Gauge),
        Err(AppError::InvalidInput)
    );
    assert_eq!(registry.get_prometheus_metrics().unwrap(), "\n");
}

#[test]
fn labels_render_in_insertion_order() {
    let registry = MetricRegistry::new();
    registry.register_metric("x", MetricType::Gauge).unwrap();
    registry.add_label("x", "a", "1").unwrap();
    registry.add_label("x", "b", "2").unwrap();
    let body = registry.get_prometheus_metrics().unwrap();
    assert_eq!(body, "x{a=\"1\",b=\"2\"} 0\n");
}

#[test]
fn duplicate_label_keys_are_kept() {
    let registry = MetricRegistry::new();
    registry.register_metric("x", MetricType::Gauge).unwrap();
    registry.add_label("x", "a", "1").unwrap();
    registry.add_label("x", "a", "2").unwrap();
    let body = registry.get_prometheus_metrics().unwrap();
    assert_eq!(body, "x{a=\"1\",a=\"2\"} 0\n");
}

#[test]
fn add_label_on_unregistered_is_not_found() {
    let registry = MetricRegistry::new();
    assert_eq!(registry.add_label("x", "a", "1"), Err(AppError::NotFound));
}

#[test]
fn no_label_block_when_no_labels() {
    let registry = MetricRegistry::new();
    registry.register_metric("x", MetricType::Gauge).unwrap();
    let body = registry.get_prometheus_metrics().unwrap();
    assert_eq!(body, "x 0\n");
    assert!(!body.contains('{'));
    assert!(!body.contains('}'));
}

#[test]
fn gauge_update_overwrites() {
    let registry = MetricRegistry::new();
    registry.register_metric("x", MetricType::Gauge).unwrap();
    registry.update_metric("x", "1".to_string()).unwrap();
    registry.update_metric("x", "2.75".to_string()).unwrap();
    assert_eq!(registry.get_prometheus_metrics().unwrap(), "x 2.75\n");
}

#[test]
fn export_order_is_registration_order() {
    let registry = MetricRegistry::new();
    registry.register_metric("b", MetricType::Gauge).unwrap();
    registry.register_metric("a", MetricType::Gauge).unwrap();
    registry.register_metric("c", MetricType::Gauge).unwrap();
    assert_eq!(registry.get_prometheus_metrics().unwrap(), "b 0\na 0\nc 0\n");
}

#[test]
fn end_to_end_scenario() {
    let registry = MetricRegistry::new();
    registry.register_metric("cpu_usage", MetricType::Gauge).unwrap();
    registry.register_metric("memory_usage", MetricType::Gauge).unwrap();
    registry.add_label("cpu_usage", "instance", "h1").unwrap();
    registry.add_label("memory_usage", "instance", "h1").unwrap();
    registry.update_metric("cpu_usage", "12.4".to_string()).unwrap();
    registry
        .update_metric("memory_usage", "63.891".to_string())
        .unwrap();
    let body = registry.get_prometheus_metrics().unwrap();
    assert_eq!(
        body,
        "cpu_usage{instance=\"h1\"} 12.4\nmemory_usage{instance=\"h1\"} 63.891\n"
    );
}

#[test]
fn metric_renders_one_line() {
    let mut m = Metric::new("req", MetricType::Gauge);
    assert_eq!(m.to_prometheus_format(), "req 0");
    m.add_label("path", "/metrics");
    m.set_value("41.5".to_string(), 1);
    assert_eq!(m.to_prometheus_format(), "req{path=\"/metrics\"} 41.5");
}

#[test]
fn table_tracks_observation_ticks() {
    let mut t = MetricTable::new();
    t.register_metric("x", MetricType::Gauge).unwrap();
    assert_eq!(t.get_metric("x").unwrap().observed_at, 0);
    t.update_metric("x", "1".to_string()).unwrap();
    let first = t.get_metric("x").unwrap().observed_at;
    t.update_metric("x", "2".to_string()).unwrap();
    let second = t.get_metric("x").unwrap().observed_at;
    assert!(first < second);
}

#[test]
fn error_messages_are_short_and_plain() {
    assert_eq!(AppError::NotFound.message(), "Metric not found");
    assert_eq!(AppError::InvalidInput.message(), "Invalid input");
    assert_eq!(AppError::ListenerBindError.message(), "Failed to bind the listener");
    assert_eq!(AppError::ServerStartError.message(), "Failed to start the server");
    assert_eq!(AppError::InternalError.message(), "Internal server error");
}
