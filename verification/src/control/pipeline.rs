//! The channels between the stages of a stream.

use vstd::prelude::*;
use vstd::string::*;

use crate::common::metrics::{record_channel_metrics, utilization};
use crate::common::types::{
    INGEST_TRANSCODE_CHANNEL_CAP, PACKAGER_STORAGE_CHANNEL_CAP, TRANSCODE_PACKAGER_CHANNEL_CAP,
};
use crate::observability::metrics::{all_measured, MetricUpdate};

verus! {

/// The measurements of a new pipeline: each of its channels is empty.
pub fn create_pipeline_metrics() -> (r: Vec<MetricUpdate>)
    ensures
        all_measured(r@) == seq![
            utilization("ingest_transcode"@, 0, INGEST_TRANSCODE_CHANNEL_CAP),
            utilization("transcode_packager"@, 0, TRANSCODE_PACKAGER_CHANNEL_CAP),
            utilization("packager_storage"@, 0, PACKAGER_STORAGE_CHANNEL_CAP),
        ],
{
    let mut out: Vec<MetricUpdate> = Vec::new();
    out.push(record_channel_metrics("ingest_transcode", 0, INGEST_TRANSCODE_CHANNEL_CAP));
    out.push(record_channel_metrics("transcode_packager", 0, TRANSCODE_PACKAGER_CHANNEL_CAP));
    out.push(record_channel_metrics("packager_storage", 0, PACKAGER_STORAGE_CHANNEL_CAP));
    assert(all_measured(out@) =~= seq![out@[0]@, out@[1]@, out@[2]@]);
    out
}

} // verus!
