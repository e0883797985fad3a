//! The metrics of the application: their catalog, and one function per measurement.
//!
//! A measurement is a value, [`MetricUpdate`]; the application hands it to its recorder.

use vstd::prelude::*;
use vstd::string::*;

use crate::common::types::Share;
use crate::text;
use crate::text::finishes_with;

verus! {

/// What a metric measures.
#[derive(Debug, Clone, Copy, PartialEq, Eq, Structural)]
pub enum MetricKind {
    Counter,
    Gauge,
    Histogram,
}

/// The entry of a metric in the catalog.
#[derive(Debug, Clone, Copy)]
pub struct MetricDescriptor {
    pub kind: MetricKind,
    pub name: &'static str,
    pub description: &'static str,
}

/// How a measurement changes its metric.
#[derive(Debug, Clone, Copy, PartialEq, Eq, Structural)]
pub enum MetricChange {
    /// Adds to a counter.
    CounterAdd(u64),
    /// Adds to a gauge.
    GaugeAdd(i64),
    /// Sets a gauge.
    GaugeSet(i64),
    /// Sets a gauge to a count.
    GaugeCount(u64),
    /// Sets a gauge to the fraction `part / whole`.
    GaugeRatio { part: u64, whole: u64 },
    /// Sets a gauge to a share in percent.
    GaugePercent(Share),
    /// Records a whole number in a histogram.
    HistogramRecord(u64),
    /// Records a number of nanoseconds, in seconds, in a histogram.
    HistogramNanos(u64),
    /// Records a number of ticks of 1/90000 s, in seconds, in a histogram.
    HistogramTicks(i64),
}

impl MetricChange {
    /// The kind of metric that the change is for.
    pub open spec fn kind(self) -> MetricKind {
        match self {
            MetricChange::CounterAdd(_) => MetricKind::Counter,
            MetricChange::GaugeAdd(_) => MetricKind::Gauge,
            MetricChange::GaugeSet(_) => MetricKind::Gauge,
            MetricChange::GaugeCount(_) => MetricKind::Gauge,
            MetricChange::GaugeRatio { .. } => MetricKind::Gauge,
            MetricChange::GaugePercent(_) => MetricKind::Gauge,
            MetricChange::HistogramRecord(_) => MetricKind::Histogram,
            MetricChange::HistogramNanos(_) => MetricKind::Histogram,
            MetricChange::HistogramTicks(_) => MetricKind::Histogram,
        }
    }
}

/// One measurement.
#[derive(Debug)]
pub struct MetricUpdate {
    pub name: &'static str,
    /// Label names and values.
    pub labels: Vec<(&'static str, String)>,
    pub change: MetricChange,
}

/// What a measurement says.
#[verifier::ext_equal]
pub struct Measurement {
    pub name: Seq<char>,
    pub labels: Seq<(Seq<char>, Seq<char>)>,
    pub change: MetricChange,
}

impl View for MetricUpdate {
    type V = Measurement;

    open spec fn view(&self) -> Measurement {
        Measurement {
            name: self.name@,
            labels: self.labels@.map_values(|l: (&'static str, String)| (l.0@, l.1@)),
            change: self.change,
        }
    }
}

/// What measurements say, in order.
pub open spec fn all_measured(updates: Seq<MetricUpdate>) -> Seq<Measurement> {
    updates.map_values(|m: MetricUpdate| m@)
}

/// A measurement without labels.
pub open spec fn measured(name: Seq<char>, change: MetricChange) -> Measurement {
    Measurement { name, labels: Seq::empty(), change }
}

/// A measurement with one label.
pub open spec fn measured1(
    name: Seq<char>,
    label: Seq<char>,
    value: Seq<char>,
    change: MetricChange,
) -> Measurement {
    Measurement { name, labels: seq![(label, value)], change }
}

/// A measurement with two labels.
pub open spec fn measured2(
    name: Seq<char>,
    label1: Seq<char>,
    value1: Seq<char>,
    label2: Seq<char>,
    value2: Seq<char>,
    change: MetricChange,
) -> Measurement {
    Measurement { name, labels: seq![(label1, value1), (label2, value2)], change }
}

/// A measurement with three labels.
pub open spec fn measured3(
    name: Seq<char>,
    label1: Seq<char>,
    value1: Seq<char>,
    label2: Seq<char>,
    value2: Seq<char>,
    label3: Seq<char>,
    value3: Seq<char>,
    change: MetricChange,
) -> Measurement {
    Measurement { name, labels: seq![(label1, value1), (label2, value2), (label3, value3)], change }
}

pub(crate) fn plain(name: &'static str, change: MetricChange) -> (r: MetricUpdate)
    ensures
        r@ == measured(name@, change),
{
    let r = MetricUpdate { name, labels: Vec::new(), change };
    assert(r@.labels =~= Seq::empty());
    r
}

pub(crate) fn labelled(
    name: &'static str,
    label: &'static str,
    value: &str,
    change: MetricChange,
) -> (r: MetricUpdate)
    ensures
        r@ == measured1(name@, label@, value@, change),
{
    let mut labels: Vec<(&'static str, String)> = Vec::new();
    labels.push((label, text::owned(value)));
    let r = MetricUpdate { name, labels, change };
    assert(r@.labels =~= seq![(label@, value@)]);
    r
}

pub(crate) fn labelled2(
    name: &'static str,
    label1: &'static str,
    value1: &str,
    label2: &'static str,
    value2: &str,
    change: MetricChange,
) -> (r: MetricUpdate)
    ensures
        r@ == measured2(name@, label1@, value1@, label2@, value2@, change),
{
    let mut labels: Vec<(&'static str, String)> = Vec::new();
    labels.push((label1, text::owned(value1)));
    labels.push((label2, text::owned(value2)));
    let r = MetricUpdate { name, labels, change };
    assert(r@.labels =~= seq![(label1@, value1@), (label2@, value2@)]);
    r
}

// ---------------------------------------------------------------------------
// Catalog
// ---------------------------------------------------------------------------

/// A catalog entry: kind, name, description.
pub type Described = (MetricKind, Seq<char>, Seq<char>);

/// The catalog entry that a descriptor writes.
pub open spec fn described(d: MetricDescriptor) -> Described {
    (d.kind, d.name@, d.description@)
}

/// The catalog entries that a list of descriptors writes.
pub open spec fn all_described(d: Seq<MetricDescriptor>) -> Seq<Described> {
    d.map_values(|m: MetricDescriptor| described(m))
}

fn describe(
    out: &mut Vec<MetricDescriptor>,
    kind: MetricKind,
    name: &'static str,
    description: &'static str,
)
    ensures
        all_described(final(out)@) == all_described(old(out)@).push((kind, name@, description@)),
{
    out.push(MetricDescriptor { kind, name, description });
    assert(all_described(out@) =~= all_described(old(out)@).push((kind, name@, description@)));
}


/// The ingest metrics.
pub open spec fn ingest_catalog() -> Seq<Described> {
    seq![
        (MetricKind::Gauge, "streaminfa_ingest_active_streams"@, "Currently active ingest streams"@),
        (MetricKind::Counter, "streaminfa_ingest_connections_total"@, "Total ingest connections (including failed auth)"@),
        (MetricKind::Counter, "streaminfa_ingest_bytes_total"@, "Total bytes ingested"@),
        (MetricKind::Counter, "streaminfa_ingest_frames_total"@, "Total frames demuxed"@),
        (MetricKind::Counter, "streaminfa_ingest_errors_total"@, "Ingest errors by type"@),
        (MetricKind::Gauge, "streaminfa_ingest_bitrate_bps"@, "Current ingest bitrate (rolling 5s window)"@),
        (MetricKind::Gauge, "streaminfa_ingest_channel_utilization"@, "Ingest->transcode channel fullness (0.0-1.0)"@),
        (MetricKind::Histogram, "streaminfa_upload_duration_seconds"@, "VOD upload duration"@),
        (MetricKind::Histogram, "streaminfa_upload_size_bytes"@, "VOD upload file size"@),
    ]
}

fn describe_ingest(out: &mut Vec<MetricDescriptor>)
    ensures
        all_described(final(out)@) == all_described(old(out)@) + ingest_catalog(),
{
    describe(out, MetricKind::Gauge, "streaminfa_ingest_active_streams", "Currently active ingest streams");
    describe(out, MetricKind::Counter, "streaminfa_ingest_connections_total", "Total ingest connections (including failed auth)");
    describe(out, MetricKind::Counter, "streaminfa_ingest_bytes_total", "Total bytes ingested");
    describe(out, MetricKind::Counter, "streaminfa_ingest_frames_total", "Total frames demuxed");
    describe(out, MetricKind::Counter, "streaminfa_ingest_errors_total", "Ingest errors by type");
    describe(out, MetricKind::Gauge, "streaminfa_ingest_bitrate_bps", "Current ingest bitrate (rolling 5s window)");
    describe(out, MetricKind::Gauge, "streaminfa_ingest_channel_utilization", "Ingest->transcode channel fullness (0.0-1.0)");
    describe(out, MetricKind::Histogram, "streaminfa_upload_duration_seconds", "VOD upload duration");
    describe(out, MetricKind::Histogram, "streaminfa_upload_size_bytes", "VOD upload file size");
    assert(all_described(out@) =~= all_described(old(out)@) + ingest_catalog());
}

/// The transcode metrics.
pub open spec fn transcode_catalog() -> Seq<Described> {
    seq![
        (MetricKind::Gauge, "streaminfa_transcode_active_jobs"@, "Currently active transcode jobs"@),
        (MetricKind::Counter, "streaminfa_transcode_segments_total"@, "Total segments produced"@),
        (MetricKind::Histogram, "streaminfa_transcode_segment_duration_seconds"@, "Actual segment duration distribution"@),
        (MetricKind::Histogram, "streaminfa_transcode_latency_seconds"@, "Time from first frame input to segment output"@),
        (MetricKind::Gauge, "streaminfa_transcode_fps"@, "Current encoding frames per second"@),
        (MetricKind::Gauge, "streaminfa_transcode_queue_depth"@, "Ingest->transcode channel current depth"@),
        (MetricKind::Counter, "streaminfa_transcode_errors_total"@, "Transcode errors by type"@),
        (MetricKind::Gauge, "streaminfa_vod_progress_percent"@, "VOD transcode progress (0.0-100.0)"@),
    ]
}

fn describe_transcode(out: &mut Vec<MetricDescriptor>)
    ensures
        all_described(final(out)@) == all_described(old(out)@) + transcode_catalog(),
{
    describe(out, MetricKind::Gauge, "streaminfa_transcode_active_jobs", "Currently active transcode jobs");
    describe(out, MetricKind::Counter, "streaminfa_transcode_segments_total", "Total segments produced");
    describe(out, MetricKind::Histogram, "streaminfa_transcode_segment_duration_seconds", "Actual segment duration distribution");
    describe(out, MetricKind::Histogram, "streaminfa_transcode_latency_seconds", "Time from first frame input to segment output");
    describe(out, MetricKind::Gauge, "streaminfa_transcode_fps", "Current encoding frames per second");
    describe(out, MetricKind::Gauge, "streaminfa_transcode_queue_depth", "Ingest->transcode channel current depth");
    describe(out, MetricKind::Counter, "streaminfa_transcode_errors_total", "Transcode errors by type");
    describe(out, MetricKind::Gauge, "streaminfa_vod_progress_percent", "VOD transcode progress (0.0-100.0)");
    assert(all_described(out@) =~= all_described(old(out)@) + transcode_catalog());
}

/// The packaging metrics.
pub open spec fn packaging_catalog() -> Seq<Described> {
    seq![
        (MetricKind::Counter, "streaminfa_package_segments_written_total"@, "fMP4 segments written to storage"@),
        (MetricKind::Counter, "streaminfa_package_manifest_updates_total"@, "Manifest file updates"@),
        (MetricKind::Histogram, "streaminfa_package_mux_duration_seconds"@, "Time to mux one fMP4 segment"@),
    ]
}

fn describe_packaging(out: &mut Vec<MetricDescriptor>)
    ensures
        all_described(final(out)@) == all_described(old(out)@) + packaging_catalog(),
{
    describe(out, MetricKind::Counter, "streaminfa_package_segments_written_total", "fMP4 segments written to storage");
    describe(out, MetricKind::Counter, "streaminfa_package_manifest_updates_total", "Manifest file updates");
    describe(out, MetricKind::Histogram, "streaminfa_package_mux_duration_seconds", "Time to mux one fMP4 segment");
    assert(all_described(out@) =~= all_described(old(out)@) + packaging_catalog());
}

/// The storage metrics.
pub open spec fn storage_catalog() -> Seq<Described> {
    seq![
        (MetricKind::Histogram, "streaminfa_storage_put_duration_seconds"@, "S3 PUT latency"@),
        (MetricKind::Histogram, "streaminfa_storage_get_duration_seconds"@, "S3 GET latency"@),
        (MetricKind::Counter, "streaminfa_storage_put_bytes_total"@, "Total bytes written to S3"@),
        (MetricKind::Counter, "streaminfa_storage_get_bytes_total"@, "Total bytes read from S3"@),
        (MetricKind::Counter, "streaminfa_storage_errors_total"@, "Storage operation errors"@),
        (MetricKind::Counter, "streaminfa_storage_retries_total"@, "Storage operation retries"@),
        (MetricKind::Counter, "streaminfa_storage_segments_deleted_total"@, "Segments cleaned up by retention policy"@),
        (MetricKind::Counter, "streaminfa_cache_hits_total"@, "LRU cache hits"@),
        (MetricKind::Counter, "streaminfa_cache_misses_total"@, "LRU cache misses"@),
        (MetricKind::Gauge, "streaminfa_cache_size_bytes"@, "Current cache memory usage"@),
        (MetricKind::Gauge, "streaminfa_cache_entries"@, "Current number of cached objects"@),
    ]
}

fn describe_storage(out: &mut Vec<MetricDescriptor>)
    ensures
        all_described(final(out)@) == all_described(old(out)@) + storage_catalog(),
{
    describe(out, MetricKind::Histogram, "streaminfa_storage_put_duration_seconds", "S3 PUT latency");
    describe(out, MetricKind::Histogram, "streaminfa_storage_get_duration_seconds", "S3 GET latency");
    describe(out, MetricKind::Counter, "streaminfa_storage_put_bytes_total", "Total bytes written to S3");
    describe(out, MetricKind::Counter, "streaminfa_storage_get_bytes_total", "Total bytes read from S3");
    describe(out, MetricKind::Counter, "streaminfa_storage_errors_total", "Storage operation errors");
    describe(out, MetricKind::Counter, "streaminfa_storage_retries_total", "Storage operation retries");
    describe(out, MetricKind::Counter, "streaminfa_storage_segments_deleted_total", "Segments cleaned up by retention policy");
    describe(out, MetricKind::Counter, "streaminfa_cache_hits_total", "LRU cache hits");
    describe(out, MetricKind::Counter, "streaminfa_cache_misses_total", "LRU cache misses");
    describe(out, MetricKind::Gauge, "streaminfa_cache_size_bytes", "Current cache memory usage");
    describe(out, MetricKind::Gauge, "streaminfa_cache_entries", "Current number of cached objects");
    assert(all_described(out@) =~= all_described(old(out)@) + storage_catalog());
}

/// The delivery metrics.
pub open spec fn delivery_catalog() -> Seq<Described> {
    seq![
        (MetricKind::Counter, "streaminfa_delivery_requests_total"@, "HTTP requests to origin"@),
        (MetricKind::Histogram, "streaminfa_delivery_request_duration_seconds"@, "Origin response latency"@),
        (MetricKind::Counter, "streaminfa_delivery_bytes_sent_total"@, "Total bytes served to players/CDN"@),
        (MetricKind::Gauge, "streaminfa_delivery_active_connections"@, "Current active HTTP connections for delivery"@),
    ]
}

fn describe_delivery(out: &mut Vec<MetricDescriptor>)
    ensures
        all_described(final(out)@) == all_described(old(out)@) + delivery_catalog(),
{
    describe(out, MetricKind::Counter, "streaminfa_delivery_requests_total", "HTTP requests to origin");
    describe(out, MetricKind::Histogram, "streaminfa_delivery_request_duration_seconds", "Origin response latency");
    describe(out, MetricKind::Counter, "streaminfa_delivery_bytes_sent_total", "Total bytes served to players/CDN");
    describe(out, MetricKind::Gauge, "streaminfa_delivery_active_connections", "Current active HTTP connections for delivery");
    assert(all_described(out@) =~= all_described(old(out)@) + delivery_catalog());
}

/// The system metrics.
pub open spec fn system_catalog() -> Seq<Described> {
    seq![
        (MetricKind::Gauge, "streaminfa_uptime_seconds"@, "Process uptime"@),
        (MetricKind::Gauge, "streaminfa_streams_total"@, "Stream count by state"@),
        (MetricKind::Counter, "streaminfa_panic_total"@, "Total panics caught (should always be 0)"@),
        (MetricKind::Counter, "streaminfa_config_reload_total"@, "Config reload attempts"@),
        (MetricKind::Gauge, "streaminfa_shutdown_in_progress"@, "1 if graceful shutdown is in progress, 0 otherwise"@),
    ]
}

fn describe_system(out: &mut Vec<MetricDescriptor>)
    ensures
        all_described(final(out)@) == all_described(old(out)@) + system_catalog(),
{
    describe(out, MetricKind::Gauge, "streaminfa_uptime_seconds", "Process uptime");
    describe(out, MetricKind::Gauge, "streaminfa_streams_total", "Stream count by state");
    describe(out, MetricKind::Counter, "streaminfa_panic_total", "Total panics caught (should always be 0)");
    describe(out, MetricKind::Counter, "streaminfa_config_reload_total", "Config reload attempts");
    describe(out, MetricKind::Gauge, "streaminfa_shutdown_in_progress", "1 if graceful shutdown is in progress, 0 otherwise");
    assert(all_described(out@) =~= all_described(old(out)@) + system_catalog());
}

/// The backpressure metrics.
pub open spec fn backpressure_catalog() -> Seq<Described> {
    seq![
        (MetricKind::Gauge, "streaminfa_channel_utilization"@, "Channel fullness ratio (0.0-1.0)"@),
        (MetricKind::Histogram, "streaminfa_channel_send_wait_seconds"@, "Time blocked on channel send"@),
        (MetricKind::Counter, "streaminfa_backpressure_events_total"@, "Sends that blocked > 100ms"@),
    ]
}

fn describe_backpressure(out: &mut Vec<MetricDescriptor>)
    ensures
        all_described(final(out)@) == all_described(old(out)@) + backpressure_catalog(),
{
    describe(out, MetricKind::Gauge, "streaminfa_channel_utilization", "Channel fullness ratio (0.0-1.0)");
    describe(out, MetricKind::Histogram, "streaminfa_channel_send_wait_seconds", "Time blocked on channel send");
    describe(out, MetricKind::Counter, "streaminfa_backpressure_events_total", "Sends that blocked > 100ms");
    assert(all_described(out@) =~= all_described(old(out)@) + backpressure_catalog());
}

/// The metrics of all stages.
pub open spec fn catalog() -> Seq<Described> {
    ingest_catalog() + transcode_catalog() + packaging_catalog() + storage_catalog() + delivery_catalog() + system_catalog() + backpressure_catalog()
}

/// The descriptors of all metrics, to be registered before anything is measured.
pub fn describe_all_metrics() -> (r: Vec<MetricDescriptor>)
    ensures
        all_described(r@) == catalog(),
{
    let mut out: Vec<MetricDescriptor> = Vec::new();
    describe_ingest(&mut out);
    assert(all_described(out@) =~= ingest_catalog());
    describe_transcode(&mut out);
    describe_packaging(&mut out);
    describe_storage(&mut out);
    describe_delivery(&mut out);
    describe_system(&mut out);
    describe_backpressure(&mut out);
    out
}

/// The metric that the measurement is of stands in the catalog, with the right kind.
pub open spec fn in_catalog(m: Measurement) -> bool {
    exists|i: int|
        0 <= i < catalog().len() && (#[trigger] catalog()[i]).0 == m.change.kind() && catalog()[i].1
            == m.name
}

// ---------------------------------------------------------------------------
// Measurements
// ---------------------------------------------------------------------------

/// One refused request, by protocol, endpoint and reason. The metric is not described.
pub fn inc_auth_failure(protocol: &str, endpoint: &str, reason: &str) -> (r: MetricUpdate)
    ensures
        r@ == measured3(
            "streaminfa_auth_failures_total"@,
            "protocol"@,
            protocol@,
            "endpoint"@,
            endpoint@,
            "reason"@,
            reason@,
            MetricChange::CounterAdd(1),
        ),
{
    let mut labels: Vec<(&'static str, String)> = Vec::new();
    labels.push(("protocol", text::owned(protocol)));
    labels.push(("endpoint", text::owned(endpoint)));
    labels.push(("reason", text::owned(reason)));
    let r = MetricUpdate {
        name: "streaminfa_auth_failures_total",
        labels,
        change: MetricChange::CounterAdd(1),
    };
    assert(r@.labels =~= seq![
        ("protocol"@, protocol@),
        ("endpoint"@, endpoint@),
        ("reason"@, reason@),
    ]);
    r
}

/// One more active ingest stream.
pub fn inc_ingest_active_streams(protocol: &str) -> (r: MetricUpdate)
    ensures
        r@ == measured1("streaminfa_ingest_active_streams"@, "protocol"@, protocol@, MetricChange::GaugeAdd(1)),
        in_catalog(r@),
{
    let r = labelled("streaminfa_ingest_active_streams", "protocol", protocol, MetricChange::GaugeAdd(1));
    assert(catalog()[0].1 == r@.name);
    r
}

/// One active ingest stream less.
pub fn dec_ingest_active_streams(protocol: &str) -> (r: MetricUpdate)
    ensures
        r@ == measured1("streaminfa_ingest_active_streams"@, "protocol"@, protocol@, MetricChange::GaugeAdd((-1) as i64)),
        in_catalog(r@),
{
    let r = labelled("streaminfa_ingest_active_streams", "protocol", protocol, MetricChange::GaugeAdd(-1));
    assert(catalog()[0].1 == r@.name);
    r
}

/// One more ingest connection.
pub fn inc_ingest_connections(protocol: &str) -> (r: MetricUpdate)
    ensures
        r@ == measured1("streaminfa_ingest_connections_total"@, "protocol"@, protocol@, MetricChange::CounterAdd(1)),
        in_catalog(r@),
{
    let r = labelled("streaminfa_ingest_connections_total", "protocol", protocol, MetricChange::CounterAdd(1));
    assert(catalog()[1].1 == r@.name);
    r
}

/// Bytes came in.
pub fn add_ingest_bytes(protocol: &str, stream_id: &str, bytes: u64) -> (r: MetricUpdate)
    ensures
        r@ == measured2("streaminfa_ingest_bytes_total"@, "protocol"@, protocol@, "stream_id"@, stream_id@, MetricChange::CounterAdd(bytes)),
        in_catalog(r@),
{
    let r = labelled2("streaminfa_ingest_bytes_total", "protocol", protocol, "stream_id", stream_id, MetricChange::CounterAdd(bytes));
    assert(catalog()[2].1 == r@.name);
    r
}

/// One frame was demuxed.
pub fn inc_ingest_frames(stream_id: &str, track: &str) -> (r: MetricUpdate)
    ensures
        r@ == measured2("streaminfa_ingest_frames_total"@, "stream_id"@, stream_id@, "track"@, track@, MetricChange::CounterAdd(1)),
        in_catalog(r@),
{
    let r = labelled2("streaminfa_ingest_frames_total", "stream_id", stream_id, "track", track, MetricChange::CounterAdd(1));
    assert(catalog()[3].1 == r@.name);
    r
}

/// An ingest error of the given type.
pub fn inc_ingest_error(protocol: &str, error_type: &str) -> (r: MetricUpdate)
    ensures
        r@ == measured2("streaminfa_ingest_errors_total"@, "protocol"@, protocol@, "error_type"@, error_type@, MetricChange::CounterAdd(1)),
        in_catalog(r@),
{
    let r = labelled2("streaminfa_ingest_errors_total", "protocol", protocol, "error_type", error_type, MetricChange::CounterAdd(1));
    assert(catalog()[4].1 == r@.name);
    r
}

/// The current ingest bitrate, in bits per second.
pub fn set_ingest_bitrate(stream_id: &str, bps: i64) -> (r: MetricUpdate)
    ensures
        r@ == measured1("streaminfa_ingest_bitrate_bps"@, "stream_id"@, stream_id@, MetricChange::GaugeSet(bps)),
        in_catalog(r@),
{
    let r = labelled("streaminfa_ingest_bitrate_bps", "stream_id", stream_id, MetricChange::GaugeSet(bps));
    assert(catalog()[5].1 == r@.name);
    r
}

/// An upload took this many nanoseconds.
pub fn record_upload_duration(nanos: u64) -> (r: MetricUpdate)
    ensures
        r@ == measured("streaminfa_upload_duration_seconds"@, MetricChange::HistogramNanos(nanos)),
        in_catalog(r@),
{
    let r = plain("streaminfa_upload_duration_seconds", MetricChange::HistogramNanos(nanos));
    assert(catalog()[7].1 == r@.name);
    r
}

/// An upload had this many bytes.
pub fn record_upload_size(bytes: u64) -> (r: MetricUpdate)
    ensures
        r@ == measured("streaminfa_upload_size_bytes"@, MetricChange::HistogramRecord(bytes)),
        in_catalog(r@),
{
    let r = plain("streaminfa_upload_size_bytes", MetricChange::HistogramRecord(bytes));
    assert(catalog()[8].1 == r@.name);
    r
}

/// The number of active transcode jobs.
pub fn set_transcode_active_jobs(count: i64) -> (r: MetricUpdate)
    ensures
        r@ == measured("streaminfa_transcode_active_jobs"@, MetricChange::GaugeSet(count)),
        in_catalog(r@),
{
    let r = plain("streaminfa_transcode_active_jobs", MetricChange::GaugeSet(count));
    assert(catalog()[9].1 == r@.name);
    r
}

/// A transcode job started.
pub fn inc_transcode_active_jobs() -> (r: MetricUpdate)
    ensures
        r@ == measured("streaminfa_transcode_active_jobs"@, MetricChange::GaugeAdd(1)),
        in_catalog(r@),
{
    let r = plain("streaminfa_transcode_active_jobs", MetricChange::GaugeAdd(1));
    assert(catalog()[9].1 == r@.name);
    r
}

/// A transcode job ended.
pub fn dec_transcode_active_jobs() -> (r: MetricUpdate)
    ensures
        r@ == measured("streaminfa_transcode_active_jobs"@, MetricChange::GaugeAdd((-1) as i64)),
        in_catalog(r@),
{
    let r = plain("streaminfa_transcode_active_jobs", MetricChange::GaugeAdd(-1));
    assert(catalog()[9].1 == r@.name);
    r
}

/// One segment was produced.
pub fn inc_transcode_segments(stream_id: &str, rendition: &str) -> (r: MetricUpdate)
    ensures
        r@ == measured2("streaminfa_transcode_segments_total"@, "stream_id"@, stream_id@, "rendition"@, rendition@, MetricChange::CounterAdd(1)),
        in_catalog(r@),
{
    let r = labelled2("streaminfa_transcode_segments_total", "stream_id", stream_id, "rendition", rendition, MetricChange::CounterAdd(1));
    assert(catalog()[10].1 == r@.name);
    r
}

/// A segment lasts this many ticks.
pub fn record_transcode_segment_duration(rendition: &str, ticks: i64) -> (r: MetricUpdate)
    ensures
        r@ == measured1("streaminfa_transcode_segment_duration_seconds"@, "rendition"@, rendition@, MetricChange::HistogramTicks(ticks)),
        in_catalog(r@),
{
    let r = labelled("streaminfa_transcode_segment_duration_seconds", "rendition", rendition, MetricChange::HistogramTicks(ticks));
    assert(catalog()[11].1 == r@.name);
    r
}

/// Nanoseconds from the first frame to the segment.
pub fn record_transcode_latency(rendition: &str, nanos: u64) -> (r: MetricUpdate)
    ensures
        r@ == measured1("streaminfa_transcode_latency_seconds"@, "rendition"@, rendition@, MetricChange::HistogramNanos(nanos)),
        in_catalog(r@),
{
    let r = labelled("streaminfa_transcode_latency_seconds", "rendition", rendition, MetricChange::HistogramNanos(nanos));
    assert(catalog()[12].1 == r@.name);
    r
}

/// The current encoding speed, in frames per second.
pub fn set_transcode_fps(stream_id: &str, rendition: &str, part: u64, whole: u64) -> (r: MetricUpdate)
    ensures
        r@ == measured2("streaminfa_transcode_fps"@, "stream_id"@, stream_id@, "rendition"@, rendition@, MetricChange::GaugeRatio { part, whole }),
        in_catalog(r@),
{
    let r = labelled2("streaminfa_transcode_fps", "stream_id", stream_id, "rendition", rendition, MetricChange::GaugeRatio { part, whole });
    assert(catalog()[13].1 == r@.name);
    r
}

/// The number of frames that wait for the transcoder.
pub fn set_transcode_queue_depth(stream_id: &str, depth: i64) -> (r: MetricUpdate)
    ensures
        r@ == measured1("streaminfa_transcode_queue_depth"@, "stream_id"@, stream_id@, MetricChange::GaugeSet(depth)),
        in_catalog(r@),
{
    let r = labelled("streaminfa_transcode_queue_depth", "stream_id", stream_id, MetricChange::GaugeSet(depth));
    assert(catalog()[14].1 == r@.name);
    r
}

/// A transcode error of the given type.
pub fn inc_transcode_error(stream_id: &str, error_type: &str) -> (r: MetricUpdate)
    ensures
        r@ == measured2("streaminfa_transcode_errors_total"@, "stream_id"@, stream_id@, "error_type"@, error_type@, MetricChange::CounterAdd(1)),
        in_catalog(r@),
{
    let r = labelled2("streaminfa_transcode_errors_total", "stream_id", stream_id, "error_type", error_type, MetricChange::CounterAdd(1));
    assert(catalog()[15].1 == r@.name);
    r
}

/// The progress of an on-demand transcode, in percent.
pub fn set_vod_progress(stream_id: &str, share: Share) -> (r: MetricUpdate)
    ensures
        r@ == measured1("streaminfa_vod_progress_percent"@, "stream_id"@, stream_id@, MetricChange::GaugePercent(share)),
        in_catalog(r@),
{
    let r = labelled("streaminfa_vod_progress_percent", "stream_id", stream_id, MetricChange::GaugePercent(share));
    assert(catalog()[16].1 == r@.name);
    r
}

/// One segment was packaged.
pub fn inc_package_segments_written(stream_id: &str, rendition: &str) -> (r: MetricUpdate)
    ensures
        r@ == measured2("streaminfa_package_segments_written_total"@, "stream_id"@, stream_id@, "rendition"@, rendition@, MetricChange::CounterAdd(1)),
        in_catalog(r@),
{
    let r = labelled2("streaminfa_package_segments_written_total", "stream_id", stream_id, "rendition", rendition, MetricChange::CounterAdd(1));
    assert(catalog()[17].1 == r@.name);
    r
}

/// One playlist was updated.
pub fn inc_package_manifest_updates(stream_id: &str, rendition: &str) -> (r: MetricUpdate)
    ensures
        r@ == measured2("streaminfa_package_manifest_updates_total"@, "stream_id"@, stream_id@, "rendition"@, rendition@, MetricChange::CounterAdd(1)),
        in_catalog(r@),
{
    let r = labelled2("streaminfa_package_manifest_updates_total", "stream_id", stream_id, "rendition", rendition, MetricChange::CounterAdd(1));
    assert(catalog()[18].1 == r@.name);
    r
}

/// Muxing a segment took this many nanoseconds.
pub fn record_package_mux_duration(rendition: &str, nanos: u64) -> (r: MetricUpdate)
    ensures
        r@ == measured1("streaminfa_package_mux_duration_seconds"@, "rendition"@, rendition@, MetricChange::HistogramNanos(nanos)),
        in_catalog(r@),
{
    let r = labelled("streaminfa_package_mux_duration_seconds", "rendition", rendition, MetricChange::HistogramNanos(nanos));
    assert(catalog()[19].1 == r@.name);
    r
}

/// A write took this many nanoseconds.
pub fn record_storage_put_duration(object_type: &str, nanos: u64) -> (r: MetricUpdate)
    ensures
        r@ == measured1("streaminfa_storage_put_duration_seconds"@, "object_type"@, object_type@, MetricChange::HistogramNanos(nanos)),
        in_catalog(r@),
{
    let r = labelled("streaminfa_storage_put_duration_seconds", "object_type", object_type, MetricChange::HistogramNanos(nanos));
    assert(catalog()[20].1 == r@.name);
    r
}

/// A read took this many nanoseconds.
pub fn record_storage_get_duration(object_type: &str, nanos: u64) -> (r: MetricUpdate)
    ensures
        r@ == measured1("streaminfa_storage_get_duration_seconds"@, "object_type"@, object_type@, MetricChange::HistogramNanos(nanos)),
        in_catalog(r@),
{
    let r = labelled("streaminfa_storage_get_duration_seconds", "object_type", object_type, MetricChange::HistogramNanos(nanos));
    assert(catalog()[21].1 == r@.name);
    r
}

/// Bytes were written to storage.
pub fn add_storage_put_bytes(object_type: &str, bytes: u64) -> (r: MetricUpdate)
    ensures
        r@ == measured1("streaminfa_storage_put_bytes_total"@, "object_type"@, object_type@, MetricChange::CounterAdd(bytes)),
        in_catalog(r@),
{
    let r = labelled("streaminfa_storage_put_bytes_total", "object_type", object_type, MetricChange::CounterAdd(bytes));
    assert(catalog()[22].1 == r@.name);
    r
}

/// Bytes were read from storage.
pub fn add_storage_get_bytes(object_type: &str, bytes: u64) -> (r: MetricUpdate)
    ensures
        r@ == measured1("streaminfa_storage_get_bytes_total"@, "object_type"@, object_type@, MetricChange::CounterAdd(bytes)),
        in_catalog(r@),
{
    let r = labelled("streaminfa_storage_get_bytes_total", "object_type", object_type, MetricChange::CounterAdd(bytes));
    assert(catalog()[23].1 == r@.name);
    r
}

/// A storage operation failed.
pub fn inc_storage_error(operation: &str, error_type: &str) -> (r: MetricUpdate)
    ensures
        r@ == measured2("streaminfa_storage_errors_total"@, "operation"@, operation@, "error_type"@, error_type@, MetricChange::CounterAdd(1)),
        in_catalog(r@),
{
    let r = labelled2("streaminfa_storage_errors_total", "operation", operation, "error_type", error_type, MetricChange::CounterAdd(1));
    assert(catalog()[24].1 == r@.name);
    r
}

/// A storage operation was tried again.
pub fn inc_storage_retries(operation: &str) -> (r: MetricUpdate)
    ensures
        r@ == measured1("streaminfa_storage_retries_total"@, "operation"@, operation@, MetricChange::CounterAdd(1)),
        in_catalog(r@),
{
    let r = labelled("streaminfa_storage_retries_total", "operation", operation, MetricChange::CounterAdd(1));
    assert(catalog()[25].1 == r@.name);
    r
}

/// The retention policy deleted a segment.
pub fn inc_storage_segments_deleted() -> (r: MetricUpdate)
    ensures
        r@ == measured("streaminfa_storage_segments_deleted_total"@, MetricChange::CounterAdd(1)),
        in_catalog(r@),
{
    let r = plain("streaminfa_storage_segments_deleted_total", MetricChange::CounterAdd(1));
    assert(catalog()[26].1 == r@.name);
    r
}

/// The cache had the object.
pub fn inc_cache_hit(object_type: &str) -> (r: MetricUpdate)
    ensures
        r@ == measured1("streaminfa_cache_hits_total"@, "object_type"@, object_type@, MetricChange::CounterAdd(1)),
        in_catalog(r@),
{
    let r = labelled("streaminfa_cache_hits_total", "object_type", object_type, MetricChange::CounterAdd(1));
    assert(catalog()[27].1 == r@.name);
    r
}

/// The cache did not have the object.
pub fn inc_cache_miss(object_type: &str) -> (r: MetricUpdate)
    ensures
        r@ == measured1("streaminfa_cache_misses_total"@, "object_type"@, object_type@, MetricChange::CounterAdd(1)),
        in_catalog(r@),
{
    let r = labelled("streaminfa_cache_misses_total", "object_type", object_type, MetricChange::CounterAdd(1));
    assert(catalog()[28].1 == r@.name);
    r
}

/// The size of the cache, in bytes.
pub fn set_cache_size_bytes(bytes: u64) -> (r: MetricUpdate)
    ensures
        r@ == measured("streaminfa_cache_size_bytes"@, MetricChange::GaugeCount(bytes)),
        in_catalog(r@),
{
    let r = plain("streaminfa_cache_size_bytes", MetricChange::GaugeCount(bytes));
    assert(catalog()[29].1 == r@.name);
    r
}

/// The number of cached objects.
pub fn set_cache_entries(count: i64) -> (r: MetricUpdate)
    ensures
        r@ == measured("streaminfa_cache_entries"@, MetricChange::GaugeSet(count)),
        in_catalog(r@),
{
    let r = plain("streaminfa_cache_entries", MetricChange::GaugeSet(count));
    assert(catalog()[30].1 == r@.name);
    r
}

/// One request was answered.
pub fn inc_delivery_request(status: &str, object_type: &str) -> (r: MetricUpdate)
    ensures
        r@ == measured2("streaminfa_delivery_requests_total"@, "status"@, status@, "object_type"@, object_type@, MetricChange::CounterAdd(1)),
        in_catalog(r@),
{
    let r = labelled2("streaminfa_delivery_requests_total", "status", status, "object_type", object_type, MetricChange::CounterAdd(1));
    assert(catalog()[31].1 == r@.name);
    r
}

/// A request took this many nanoseconds.
pub fn record_delivery_request_duration(object_type: &str, nanos: u64) -> (r: MetricUpdate)
    ensures
        r@ == measured1("streaminfa_delivery_request_duration_seconds"@, "object_type"@, object_type@, MetricChange::HistogramNanos(nanos)),
        in_catalog(r@),
{
    let r = labelled("streaminfa_delivery_request_duration_seconds", "object_type", object_type, MetricChange::HistogramNanos(nanos));
    assert(catalog()[32].1 == r@.name);
    r
}

/// Bytes were sent.
pub fn add_delivery_bytes_sent(bytes: u64) -> (r: MetricUpdate)
    ensures
        r@ == measured("streaminfa_delivery_bytes_sent_total"@, MetricChange::CounterAdd(bytes)),
        in_catalog(r@),
{
    let r = plain("streaminfa_delivery_bytes_sent_total", MetricChange::CounterAdd(bytes));
    assert(catalog()[33].1 == r@.name);
    r
}

/// The number of open delivery connections.
pub fn set_delivery_active_connections(count: i64) -> (r: MetricUpdate)
    ensures
        r@ == measured("streaminfa_delivery_active_connections"@, MetricChange::GaugeSet(count)),
        in_catalog(r@),
{
    let r = plain("streaminfa_delivery_active_connections", MetricChange::GaugeSet(count));
    assert(catalog()[34].1 == r@.name);
    r
}

/// A delivery connection opened.
pub fn inc_delivery_active_connections() -> (r: MetricUpdate)
    ensures
        r@ == measured("streaminfa_delivery_active_connections"@, MetricChange::GaugeAdd(1)),
        in_catalog(r@),
{
    let r = plain("streaminfa_delivery_active_connections", MetricChange::GaugeAdd(1));
    assert(catalog()[34].1 == r@.name);
    r
}

/// A delivery connection closed.
pub fn dec_delivery_active_connections() -> (r: MetricUpdate)
    ensures
        r@ == measured("streaminfa_delivery_active_connections"@, MetricChange::GaugeAdd((-1) as i64)),
        in_catalog(r@),
{
    let r = plain("streaminfa_delivery_active_connections", MetricChange::GaugeAdd(-1));
    assert(catalog()[34].1 == r@.name);
    r
}

/// Nanoseconds since the start, told in seconds.
pub fn set_uptime_seconds(nanos: u64) -> (r: MetricUpdate)
    ensures
        r@ == measured("streaminfa_uptime_seconds"@, MetricChange::GaugeRatio { part: nanos, whole: 1_000_000_000 }),
        in_catalog(r@),
{
    let r = plain("streaminfa_uptime_seconds", MetricChange::GaugeRatio { part: nanos, whole: 1_000_000_000 });
    assert(catalog()[35].1 == r@.name);
    r
}

/// The number of streams in a state.
pub fn set_streams_total(status: &str, count: i64) -> (r: MetricUpdate)
    ensures
        r@ == measured1("streaminfa_streams_total"@, "status"@, status@, MetricChange::GaugeSet(count)),
        in_catalog(r@),
{
    let r = labelled("streaminfa_streams_total", "status", status, MetricChange::GaugeSet(count));
    assert(catalog()[36].1 == r@.name);
    r
}

/// A panic was caught.
pub fn inc_panic_total() -> (r: MetricUpdate)
    ensures
        r@ == measured("streaminfa_panic_total"@, MetricChange::CounterAdd(1)),
        in_catalog(r@),
{
    let r = plain("streaminfa_panic_total", MetricChange::CounterAdd(1));
    assert(catalog()[37].1 == r@.name);
    r
}

/// The configuration was reloaded, with this result.
pub fn inc_config_reload(result: &str) -> (r: MetricUpdate)
    ensures
        r@ == measured1("streaminfa_config_reload_total"@, "result"@, result@, MetricChange::CounterAdd(1)),
        in_catalog(r@),
{
    let r = labelled("streaminfa_config_reload_total", "result", result, MetricChange::CounterAdd(1));
    assert(catalog()[38].1 == r@.name);
    r
}

/// Whether the application is shutting down.
pub fn set_shutdown_in_progress(in_progress: bool) -> (r: MetricUpdate)
    ensures
        r@ == measured(
            "streaminfa_shutdown_in_progress"@,
            MetricChange::GaugeSet(
                if in_progress {
                    1
                } else {
                    0
                },
            ),
        ),
        in_catalog(r@),
{
    let r = plain(
        "streaminfa_shutdown_in_progress",
        MetricChange::GaugeSet(
            if in_progress {
                1
            } else {
                0
            },
        ),
    );
    assert(catalog()[39].1 == r@.name);
    r
}

// ---------------------------------------------------------------------------
// Object types
// ---------------------------------------------------------------------------

/// The label of a path in delivery metrics.
pub open spec fn object_class(path: Seq<char>) -> Seq<char> {
    if finishes_with(path, ".m3u8"@) {
        "manifest"@
    } else if finishes_with(path, "init.mp4"@) {
        "init"@
    } else if finishes_with(path, ".m4s"@) || finishes_with(path, ".mp4"@) {
        "segment"@
    } else {
        "metadata"@
    }
}

/// The label of a path in delivery metrics: manifest, init, segment or metadata.
pub fn classify_object_type(path: &str) -> (r: &'static str)
    ensures
        r@ == object_class(path@),
{
    if text::ends_with(path, ".m3u8") {
        "manifest"
    } else if text::ends_with(path, "init.mp4") {
        "init"
    } else if text::ends_with(path, ".m4s") || text::ends_with(path, ".mp4") {
        "segment"
    } else {
        "metadata"
    }
}

} // verus!
