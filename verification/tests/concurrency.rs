use std::sync::Arc;

use instance_monitor::metric_registry::MetricRegistry;
use instance_monitor::metric::MetricType;

// Many updates on distinct metric names, interleaved with exports through a
// shared handle: nothing panics, and every exported body is a complete set
// of well-formed exposition lines. (True parallelism is carried by the
// registry's verified reader-writer lock; this exercises the same shared
// handle and interleaving from one thread.)
#[test]
fn interleaved_updates_and_exports_stay_consistent() {
    let registry = Arc::new(MetricRegistry::new());
    let names: Vec<String> = (0..8).map(|i| format!("m{}", i)).collect();
    for name in &names {
        registry.register_metric(name, MetricType::Gauge).unwrap();
    }

    let writer = Arc::clone(&registry);
    let reader = Arc::clone(&registry);
    for v in 0..200u32 {
        for name in &names {
            writer.update_metric(name, format!("{}", v)).unwrap();
            if v % 7 == 0 {
                let body = reader.get_prometheus_metrics().unwrap();
                assert!(body.ends_with('\n'));
                let lines: Vec<&str> = body.trim_end_matches('\n').lines().collect();
                assert_eq!(lines.len(), 8);
                for line in lines {
                    let (name, value) = line.split_once(' ').unwrap();
                    assert!(name.starts_with('m'));
                    assert!(value.chars().all(|c| c.is_ascii_digit()));
                }
            }
        }
    }
}
