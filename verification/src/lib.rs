//! Forwarding of container resource statistics as tagged metric records.
//!
//! The crate models the transform-queue-deliver core of a metrics daemon:
//! raw per-container statistics and a per-cycle metadata mapping are turned
//! into enriched metric records, buffered in a bounded FIFO queue, and
//! delivered to an ingestion service in batches of at most twenty records,
//! with retryable and fatal delivery failures kept apart.

use vstd::prelude::*;

pub mod cloudwatch;
pub mod config;
pub mod metadata_v2;
pub mod timestamp;

pub use cloudwatch::{
    classify_cloudwatch_error, metrics_from_stats, report_to_cloudwatch, Action, DeliveryError,
    DeliveryFailure, MetricRecord, MetricSink, Metrics,
};
pub use config::{Configuration, RunMode};
pub use metadata_v2::{
    container_stats, task_metadata, Container, Dimension, Metadata, MetadataMap, MemorySnapshot,
    Metric, Stats, StatsEntry,
};
pub use timestamp::{format_timestamp, Timestamp};

verus! {

/// How far the queue exceeds its configured capacity.
pub open spec fn spec_overflow(len: nat, max_size: nat) -> nat {
    if len > max_size {
        (len - max_size) as nat
    } else {
        0
    }
}

/// How many records maintenance evicts from the head: every record
/// confirmed delivered, and beyond that as many unsent ones as the
/// capacity overflow demands.
pub open spec fn spec_eviction(len: nat, max_size: nat, processed: nat) -> nat {
    let overflow = spec_overflow(len, max_size);
    if processed > overflow {
        processed
    } else {
        overflow
    }
}

/// Reconciles the queue with a delivery attempt that confirmed
/// `processed_items` records: evicts `max(processed_items, overflow)`
/// records from the head, where `overflow` is the number of records by
/// which the queue exceeds `max_size`.
///
/// The queue never exceeds its capacity afterwards, even under total
/// delivery failure -- dropping the oldest unsent records then is the
/// intended, bounded lossy-buffer policy -- and a no-op delivery on a
/// queue within capacity leaves the queue unchanged.
pub fn maintain_queue(queue: &mut Metrics, max_size: usize, processed_items: usize)
    requires
        processed_items <= old(queue)@.len(),
    ensures
        final(queue)@ == old(queue)@.skip(
            spec_eviction(old(queue)@.len(), max_size as nat, processed_items as nat) as int,
        ),
        final(queue)@.len() <= max_size,
        processed_items == 0 && old(queue)@.len() <= max_size ==> final(queue)@ == old(queue)@,
{
    let len = queue.len();
    let overflow = if len > max_size {
        len - max_size
    } else {
        0
    };
    let evict = if processed_items > overflow {
        processed_items
    } else {
        overflow
    };
    let mut k: usize = 0;
    while k < evict
        invariant
            k <= evict,
            evict <= old(queue)@.len(),
            queue@ == old(queue)@.skip(k as int),
        decreases evict - k,
    {
        let ghost pre = queue@;
        queue.remove(0);
        proof {
            assert(pre.remove(0) =~= old(queue)@.skip(k + 1int));
        }
        k += 1;
    }
    proof {
        assert(queue@ =~= old(queue)@.skip(
            spec_eviction(old(queue)@.len(), max_size as nat, processed_items as nat) as int,
        ));
        if processed_items == 0 && old(queue)@.len() <= max_size {
            assert(queue@ =~= old(queue)@);
        }
    }
}

} // verus!
