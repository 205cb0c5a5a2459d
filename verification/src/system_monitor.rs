//! The decision core of the sampling loop.
//!
//! The loop around this module is plain plumbing: it asks the host sampler
//! for a snapshot, hands the plain values here, and sleeps. Everything that
//! decides or computes — which gauges exist, what the instance label is
//! when address resolution failed, and how a snapshot turns into gauge
//! values — lives here, verified.

use vstd::prelude::*;

use crate::error::AppError;
use crate::metric_registry::{contains_name, unique_names, MetricRegistry};
use crate::metric::{MetricModel, MetricType};
use crate::numtext::memory_percent_text;

verus! {

/// The instance label value: the resolved address when there is one, and
/// the literal `unknown` placeholder otherwise, so that label assembly can
/// never abort startup.
pub fn instance_or_unknown(addr: Option<String>) -> (r: String)
    ensures
        addr matches Some(a) ==> r@ == a@,
        addr is None ==> r@ == "unknown"@,
    {
    match addr {
        Some(a) => a,
        None => {
            let s: &str = "unknown";
            s.to_owned()
        },
    }
}

/// Registers the two built-in gauges, `cpu_usage` and `memory_usage`, and
/// attaches the `instance` label to each. Registration is idempotent, the
/// names are fixed and non-empty, and the labels are attached to metrics
/// that were just registered, so this never fails.
pub fn init_monitor_metrics(registry: &MetricRegistry, instance: &str) -> (r: Result<(), AppError>)
    ensures
        r == Ok::<(), AppError>(()),
{
    proof {
        reveal_strlit("cpu_usage");
        reveal_strlit("memory_usage");
    }
    let (mut t, handle) = registry.lock.acquire_write();
    let r1 = t.register_metric("cpu_usage", MetricType::Gauge);
    let ghost t1 = t@;
    let r2 = t.register_metric("memory_usage", MetricType::Gauge);
    proof {
        let i = choose|i: int| 0 <= i < t1.len() && t1[i].name == "cpu_usage"@;
        assert(t@[i] == t1[i]);
        assert(contains_name(t@, "cpu_usage"@));
    }
    let ghost t2 = t@;
    let r3 = t.add_label("cpu_usage", "instance", instance);
    proof {
        let j = choose|j: int| 0 <= j < t2.len() && t2[j].name == "memory_usage"@;
        assert(t@[j].name == t2[j].name);
        assert(contains_name(t@, "memory_usage"@));
    }
    let r4 = t.add_label("memory_usage", "instance", instance);
    handle.release_write(t);
    proof {
        assert(r1 is Ok);
        assert(r2 is Ok);
        assert(r3 is Ok);
        assert(r4 is Ok);
    }
    Ok(())
}

/// Pushes one host snapshot into the registry: the sampler's CPU busy
/// percentage as already-rendered decimal text, and the memory utilization
/// computed from the used and total byte counts with the zero-total guard.
/// A `NotFound` outcome means the gauges were not pre-registered; it is
/// reported, not escalated, and nothing is created.
pub fn record_sample(
    registry: &MetricRegistry,
    cpu_value: String,
    memory_used: u64,
    memory_total: u64,
) -> (r: Result<(), AppError>)
    ensures
        r is Err ==> r == Err::<(), AppError>(AppError::NotFound),
        exists|v: Seq<MetricModel>|
            #[trigger] unique_names(v) && (r is Ok <==> contains_name(v, "cpu_usage"@)
                && contains_name(v, "memory_usage"@)),
{
    let memory_value = memory_percent_text(memory_used, memory_total);
    let (mut t, handle) = registry.lock.acquire_write();
    let ghost v0 = t@;
    let r1 = t.update_metric("cpu_usage", cpu_value);
    let ghost v1 = t@;
    let r2 = t.update_metric("memory_usage", memory_value);
    handle.release_write(t);
    proof {
        // A value update never adds or renames a metric, so the second
        // update's outcome speaks of the same table state as the first.
        if contains_name(v0, "memory_usage"@) {
            let j = choose|j: int| 0 <= j < v0.len() && v0[j].name == "memory_usage"@;
            assert(v1[j].name == v0[j].name);
            assert(contains_name(v1, "memory_usage"@));
        }
        if contains_name(v1, "memory_usage"@) {
            let j = choose|j: int| 0 <= j < v1.len() && v1[j].name == "memory_usage"@;
            assert(v1[j].name == v0[j].name);
            assert(contains_name(v0, "memory_usage"@));
        }
        assert(unique_names(v0) && ((r1 is Ok && r2 is Ok) <==> contains_name(v0, "cpu_usage"@)
            && contains_name(v0, "memory_usage"@)));
    }
    match (r1, r2) {
        (Ok(()), Ok(())) => Ok(()),
        _ => Err(AppError::NotFound),
    }
}

} // verus!
