//! Measurements of the channels between stages.

use vstd::prelude::*;
use vstd::string::*;

use crate::observability::metrics::{
    all_described, all_measured, labelled, measured1, Described, Measurement, MetricChange,
    MetricDescriptor, MetricKind, MetricUpdate,
};

verus! {

/// A send that blocks longer than this many milliseconds counts as backpressure.
pub const BACKPRESSURE_THRESHOLD_MS: u64 = 100;

/// The channel metrics.
pub open spec fn channel_catalog() -> Seq<Described> {
    seq![
        (
            MetricKind::Histogram,
            "streaminfa_channel_send_wait_seconds"@,
            "Time blocked on channel send"@,
        ),
        (
            MetricKind::Counter,
            "streaminfa_backpressure_events_total"@,
            "Sends that blocked > 100ms"@,
        ),
        (
            MetricKind::Gauge,
            "streaminfa_channel_utilization"@,
            "Channel fullness ratio (0.0-1.0)"@,
        ),
    ]
}

/// The descriptors of the channel metrics.
pub fn describe_backpressure_metrics() -> (r: Vec<MetricDescriptor>)
    ensures
        all_described(r@) == channel_catalog(),
{
    let mut out: Vec<MetricDescriptor> = Vec::new();
    out.push(
        MetricDescriptor {
            kind: MetricKind::Histogram,
            name: "streaminfa_channel_send_wait_seconds",
            description: "Time blocked on channel send",
        },
    );
    out.push(
        MetricDescriptor {
            kind: MetricKind::Counter,
            name: "streaminfa_backpressure_events_total",
            description: "Sends that blocked > 100ms",
        },
    );
    out.push(
        MetricDescriptor {
            kind: MetricKind::Gauge,
            name: "streaminfa_channel_utilization",
            description: "Channel fullness ratio (0.0-1.0)",
        },
    );
    assert(all_described(out@) =~= channel_catalog());
    out
}

/// How full a channel is; a channel without capacity counts as empty.
pub open spec fn utilization(label: Seq<char>, current_len: usize, capacity: usize) -> Measurement {
    measured1(
        "streaminfa_channel_utilization"@,
        "channel"@,
        label,
        if capacity > 0 {
            MetricChange::GaugeRatio { part: current_len as u64, whole: capacity as u64 }
        } else {
            MetricChange::GaugeRatio { part: 0, whole: 1 }
        },
    )
}

/// Measures how full a channel is.
pub fn record_channel_metrics(label: &str, current_len: usize, capacity: usize) -> (r: MetricUpdate)
    ensures
        r@ == utilization(label@, current_len, capacity),
{
    let change = if capacity > 0 {
        MetricChange::GaugeRatio { part: current_len as u64, whole: capacity as u64 }
    } else {
        MetricChange::GaugeRatio { part: 0, whole: 1 }
    };
    labelled("streaminfa_channel_utilization", "channel", label, change)
}

/// Measures how long a send was blocked, in nanoseconds.
pub fn record_channel_send_wait(channel_name: &str, wait_nanos: u64) -> (r: MetricUpdate)
    ensures
        r@ == measured1(
            "streaminfa_channel_send_wait_seconds"@,
            "channel"@,
            channel_name@,
            MetricChange::HistogramNanos(wait_nanos),
        ),
{
    labelled(
        "streaminfa_channel_send_wait_seconds",
        "channel",
        channel_name,
        MetricChange::HistogramNanos(wait_nanos),
    )
}

/// Counts a send that met backpressure.
pub fn inc_backpressure_event(channel_name: &str) -> (r: MetricUpdate)
    ensures
        r@ == measured1(
            "streaminfa_backpressure_events_total"@,
            "channel"@,
            channel_name@,
            MetricChange::CounterAdd(1),
        ),
{
    labelled(
        "streaminfa_backpressure_events_total",
        "channel",
        channel_name,
        MetricChange::CounterAdd(1),
    )
}

/// The number of queued items of a channel, by its capacity and its free places.
pub open spec fn queued(capacity: usize, free: usize) -> usize {
    if capacity >= free {
        (capacity - free) as usize
    } else {
        0
    }
}

/// What is measured before a send, by the free places of the channel.
pub fn measure_before_send(channel_name: &str, free: usize, capacity: usize) -> (r: MetricUpdate)
    ensures
        r@ == utilization(channel_name@, queued(capacity, free), capacity),
{
    record_channel_metrics(channel_name, capacity.saturating_sub(free), capacity)
}

/// The measurements after a send that took `wait_nanos` and left `free` places.
pub open spec fn sent(
    channel_name: Seq<char>,
    wait_nanos: u64,
    free: usize,
    capacity: usize,
) -> Seq<Measurement> {
    let wait = measured1(
        "streaminfa_channel_send_wait_seconds"@,
        "channel"@,
        channel_name,
        MetricChange::HistogramNanos(wait_nanos),
    );
    let event = measured1(
        "streaminfa_backpressure_events_total"@,
        "channel"@,
        channel_name,
        MetricChange::CounterAdd(1),
    );
    let fullness = utilization(channel_name, queued(capacity, free), capacity);
    if wait_nanos / 1_000_000 > BACKPRESSURE_THRESHOLD_MS {
        seq![wait, event, fullness]
    } else {
        seq![wait, fullness]
    }
}

/// What is measured after a send: how long it was blocked, whether that counts as backpressure,
/// and how full the channel is.
pub fn measure_after_send(
    channel_name: &str,
    wait_nanos: u64,
    free: usize,
    capacity: usize,
) -> (r: Vec<MetricUpdate>)
    ensures
        all_measured(r@) == sent(channel_name@, wait_nanos, free, capacity),
{
    let mut out: Vec<MetricUpdate> = Vec::new();
    out.push(record_channel_send_wait(channel_name, wait_nanos));
    if wait_nanos / 1_000_000 > BACKPRESSURE_THRESHOLD_MS {
        out.push(inc_backpressure_event(channel_name));
    }
    out.push(record_channel_metrics(channel_name, capacity.saturating_sub(free), capacity));
    assert(all_measured(out@) =~= sent(
        channel_name@,
        wait_nanos,
        free,
        capacity,
    ));
    out
}

} // verus!
