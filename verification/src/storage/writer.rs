//! The decisions of the storage writer: what is sent to the store, and when a failed write is
//! tried again.

use bytes::Bytes;
use vstd::prelude::*;
use vstd::string::*;

use crate::buffer::{bytes_clone, bytes_len, bytes_seq, bytes_slice};
use crate::common::types::StorageWrite;
use crate::observability::metrics as obs;
use crate::observability::metrics::{
    all_measured, measured1, measured2, Measurement, MetricChange, MetricUpdate,
};
use crate::storage::{object_label, object_type_label};
use crate::text;
use crate::text::{finishes_with, lossy_text};

verus! {

/// Times that a failed write is tried again.
pub const MAX_RETRIES: u32 = 3;

/// Milliseconds before the first retry; each further one waits twice as long.
pub const RETRY_BASE_DELAY_MS: u64 = 100;

/// A call to the store.
#[derive(Debug)]
pub enum PutCall {
    Manifest { path: String, content: String },
    Segment { path: String, data: Bytes, content_type: String },
}

/// The call that a write makes: a playlist is written as text, anything else as bytes.
pub fn put_call(write: &StorageWrite) -> (r: PutCall)
    ensures
        r is Manifest <==> finishes_with(write.path@, ".m3u8"@),
        r matches PutCall::Manifest { path, content } ==> {
            &&& path@ == write.path@
            &&& content@ == lossy_text(bytes_seq(write.data))
        },
        r matches PutCall::Segment { path, data, content_type } ==> {
            &&& path@ == write.path@
            &&& bytes_seq(data) == bytes_seq(write.data)
            &&& content_type@ == write.content_type@
        },
{
    if text::ends_with(&write.path, ".m3u8") {
        PutCall::Manifest {
            path: write.path.clone(),
            content: text::lossy(bytes_slice(&write.data)),
        }
    } else {
        PutCall::Segment {
            path: write.path.clone(),
            data: bytes_clone(&write.data),
            content_type: write.content_type.clone(),
        }
    }
}

/// What comes after a try.
#[derive(Debug, Clone, Copy, PartialEq, Eq, Structural)]
pub enum WriteStep {
    /// Try again after a delay.
    Retry { delay_ms: u64 },
    /// Done: this many bytes were written.
    Written { size: u64 },
    /// Done: nothing was written.
    GaveUp,
}

/// Milliseconds before the next try, after a number of failed ones.
pub open spec fn retry_delay(failures: nat) -> nat
    decreases failures,
{
    if failures <= 1 {
        RETRY_BASE_DELAY_MS as nat
    } else {
        2 * retry_delay((failures - 1) as nat)
    }
}

/// What comes after a try, where `failures` tries failed before it.
pub open spec fn step_after(failures: nat, succeeded: bool, size: u64) -> WriteStep {
    if succeeded {
        WriteStep::Written { size }
    } else if failures < MAX_RETRIES {
        WriteStep::Retry { delay_ms: retry_delay(failures + 1) as u64 }
    } else {
        WriteStep::GaveUp
    }
}

/// The measurements of a try.
pub open spec fn step_measured(
    failures: nat,
    succeeded: bool,
    size: u64,
    label: Seq<char>,
    nanos: u64,
) -> Seq<Measurement> {
    if succeeded {
        seq![
            measured1(
                "streaminfa_storage_put_bytes_total"@,
                "object_type"@,
                label,
                MetricChange::CounterAdd(size),
            ),
            measured1(
                "streaminfa_storage_put_duration_seconds"@,
                "object_type"@,
                label,
                MetricChange::HistogramNanos(nanos),
            ),
        ]
    } else if failures < MAX_RETRIES {
        seq![
            measured1(
                "streaminfa_storage_retries_total"@,
                "operation"@,
                "put"@,
                MetricChange::CounterAdd(1),
            ),
        ]
    } else {
        seq![
            measured2(
                "streaminfa_storage_errors_total"@,
                "operation"@,
                "put"@,
                "error_type"@,
                label,
                MetricChange::CounterAdd(1),
            ),
        ]
    }
}

/// A write that is being tried.
pub struct WriteJob {
    path: String,
    size: u64,
    failed: u32,
}

impl WriteJob {
    /// Where it is written.
    pub closed spec fn target(self) -> Seq<char> {
        self.path@
    }

    /// How many bytes it writes.
    pub closed spec fn bytes(self) -> u64 {
        self.size
    }

    /// How many tries failed.
    pub closed spec fn failures(self) -> nat {
        self.failed as nat
    }

    /// A write that was not tried yet.
    pub fn new(write: &StorageWrite) -> (r: Self)
        ensures
            r.target() == write.path@,
            r.bytes() == bytes_seq(write.data).len(),
            r.failures() == 0,
    {
        WriteJob { path: write.path.clone(), size: bytes_len(&write.data) as u64, failed: 0 }
    }

    /// A try came back, `nanos` after the write began. Returns what comes next, and the
    /// measurements.
    pub fn on_result(&mut self, succeeded: bool, nanos: u64) -> (r: (WriteStep, Vec<MetricUpdate>))
        requires
            old(self).failures() <= MAX_RETRIES,
        ensures
            final(self).target() == old(self).target(),
            final(self).bytes() == old(self).bytes(),
            final(self).failures() == if succeeded || old(self).failures() == MAX_RETRIES {
                old(self).failures()
            } else {
                old(self).failures() + 1
            },
            r.0 == step_after(old(self).failures(), succeeded, old(self).bytes()),
            all_measured(r.1@) == step_measured(
                old(self).failures(),
                succeeded,
                old(self).bytes(),
                object_label(old(self).target()),
                nanos,
            ),
    {
        let label = object_type_label(&self.path);
        let mut metrics: Vec<MetricUpdate> = Vec::new();
        let ghost want = step_measured(self.failures(), succeeded, self.size, label@, nanos);
        if succeeded {
            metrics.push(obs::add_storage_put_bytes(label, self.size));
            metrics.push(obs::record_storage_put_duration(label, nanos));
            assert(all_measured(metrics@) =~= want);
            (WriteStep::Written { size: self.size }, metrics)
        } else if self.failed < MAX_RETRIES {
            metrics.push(obs::inc_storage_retries("put"));
            assert(all_measured(metrics@) =~= want);
            let mut delay_ms: u64 = RETRY_BASE_DELAY_MS;
            let mut i: u32 = 0;
            while i < self.failed
                invariant
                    i <= self.failed,
                    self.failed < MAX_RETRIES,
                    delay_ms == retry_delay((i + 1) as nat),
                    i == 0 ==> delay_ms == RETRY_BASE_DELAY_MS,
                    i == 1 ==> delay_ms == 2 * RETRY_BASE_DELAY_MS,
                decreases self.failed - i,
            {
                delay_ms = delay_ms * 2;
                i = i + 1;
            }
            self.failed = self.failed + 1;
            (WriteStep::Retry { delay_ms }, metrics)
        } else {
            metrics.push(obs::inc_storage_error("put", label));
            assert(all_measured(metrics@) =~= want);
            (WriteStep::GaveUp, metrics)
        }
    }
}

/// What the writer has written.
#[derive(Debug, Clone, Copy, PartialEq, Eq, Structural)]
pub struct WriteTally {
    pub segments_written: u64,
    pub bytes_written: u64,
}

impl WriteTally {
    /// Nothing yet.
    pub fn new() -> (r: Self)
        ensures
            r.segments_written == 0,
            r.bytes_written == 0,
    {
        WriteTally { segments_written: 0, bytes_written: 0 }
    }

    /// Counts a write that is done; one that was given up does not count.
    pub fn count(&mut self, step: WriteStep)
        requires
            old(self).segments_written < u64::MAX,
            step matches WriteStep::Written { size } ==> old(self).bytes_written + size <= u64::MAX,
        ensures
            *final(self) == match step {
                WriteStep::Written { size } => WriteTally {
                    segments_written: (old(self).segments_written + 1) as u64,
                    bytes_written: (old(self).bytes_written + size) as u64,
                },
                _ => *old(self),
            },
    {
        if let WriteStep::Written { size } = step {
            self.segments_written = self.segments_written + 1;
            self.bytes_written = self.bytes_written + size;
        }
    }
}

// ---------------------------------------------------------------------------
// Laws
// ---------------------------------------------------------------------------

/// How a write ends, given the results of its tries from the first on; `None` while it goes on.
pub open spec fn ending(failures: nat, results: Seq<bool>, size: u64) -> Option<WriteStep>
    decreases results.len(),
{
    if results.len() == 0 {
        None
    } else {
        match step_after(failures, results[0], size) {
            WriteStep::Retry { .. } => ending(failures + 1, results.drop_first(), size),
            step => Some(step),
        }
    }
}

/// A write is tried four times at most, and it is written if and only if one of these succeeds.
pub proof fn four_tries_settle_a_write(results: Seq<bool>, size: u64)
    requires
        results.len() >= MAX_RETRIES + 1,
    ensures
        ending(0, results, size) == Some(
            if results[0] || results[1] || results[2] || results[3] {
                WriteStep::Written { size }
            } else {
                WriteStep::GaveUp
            },
        ),
{
    reveal_with_fuel(ending, 5);
}

/// A write that fails is tried again after 100, 200 and 400 milliseconds, and given up after that;
/// one that succeeds is over, with the size that was written.
pub proof fn writes_wait_longer_each_time(size: u64)
    ensures
        step_after(0, false, size) == (WriteStep::Retry { delay_ms: 100 }),
        step_after(1, false, size) == (WriteStep::Retry { delay_ms: 200 }),
        step_after(2, false, size) == (WriteStep::Retry { delay_ms: 400 }),
        step_after(3, false, size) == WriteStep::GaveUp,
        forall|n: nat| #[trigger] step_after(n, true, size) == (WriteStep::Written { size }),
{
    reveal_with_fuel(retry_delay, 4);
}

} // verus!
