//! Turning statistics into metric records and delivering them in batches.
//!
//! The transformer enriches each statistics sample with the dimensions its
//! container's metadata prescribes and renders the snapshot instant; the
//! deliverer sends the queued records to an ingestion service in consecutive
//! batches of at most twenty, classifying each failure as retryable (try
//! again next cycle, keep the confirmed count) or fatal (abort the delivery
//! call).

use vstd::prelude::*;

use crate::metadata_v2::{Dimension, DimensionView, MetadataMap, Stats, StatsView};
use crate::timestamp::{format_timestamp, spec_format_timestamp};

verus! {

/// The largest number of records the ingestion service accepts in one call.
pub const MAX_BATCH: usize = 20;

/// The queue's element type: one fully enriched, ready-to-deliver metric
/// point. Immutable once constructed. `value_bits` holds the IEEE-754 bit
/// pattern of the metric's numeric value, carried through opaquely.
#[derive(Debug, PartialEq)]
pub struct MetricRecord {
    pub dimensions: Vec<Dimension>,
    pub metric_name: String,
    pub timestamp: String,
    pub unit: String,
    pub value_bits: u64,
}

/// The queue of pending records: append at the tail, evict from the head.
pub type Metrics = Vec<MetricRecord>;

#[verifier::ext_equal]
pub struct MetricRecordView {
    pub dimensions: Seq<DimensionView>,
    pub metric_name: Seq<char>,
    pub timestamp: Seq<char>,
    pub unit: Seq<char>,
    pub value_bits: u64,
}

impl View for MetricRecord {
    type V = MetricRecordView;

    open spec fn view(&self) -> MetricRecordView {
        MetricRecordView {
            dimensions: self.dimensions.deep_view(),
            metric_name: self.metric_name@,
            timestamp: self.timestamp@,
            unit: self.unit@,
            value_bits: self.value_bits,
        }
    }
}

impl DeepView for MetricRecord {
    type V = MetricRecordView;

    open spec fn deep_view(&self) -> MetricRecordView {
        self@
    }
}

impl Clone for MetricRecord {
    fn clone(&self) -> (r: Self)
        ensures
            r@ == self@,
    {
        let dimensions = self.dimensions.clone();
        proof {
            assert forall|k: int| 0 <= k < self.dimensions@.len() implies dimensions@[k]
                == self.dimensions@[k] by {}
            assert(dimensions@ =~= self.dimensions@);
        }
        MetricRecord {
            dimensions,
            metric_name: self.metric_name.clone(),
            timestamp: self.timestamp.clone(),
            unit: self.unit.clone(),
            value_bits: self.value_bits,
        }
    }
}

// ---------------------------------------------------------------------------
// Delivery failures and their classification.
// ---------------------------------------------------------------------------

/// A delivery failure as the destination reports it: one of the closed set
/// of failure kinds of the ingestion service's client.
#[derive(Debug, PartialEq)]
pub enum DeliveryError {
    /// The request could not be dispatched: connectivity or transport broke.
    HttpDispatch(String),
    /// The destination reported an internal service fault.
    InternalServiceFault(String),
    /// An unrecognized failure; the raw response body is kept.
    Unknown(String),
    /// A structured, destination-reported rejection (validation,
    /// authorization, malformed request), with its code and message.
    Rejected { code: String, message: String },
}

/// A fatal delivery failure, propagated to the caller: the destination's
/// error code and message text.
#[derive(Debug, PartialEq)]
pub struct DeliveryFailure {
    pub code: String,
    pub message: String,
}

/// What to do about a delivery failure: try again next cycle, or abort the
/// delivery call.
#[derive(Debug, PartialEq)]
pub enum Action {
    Retry(String),
    Fail(DeliveryFailure),
}

/// A failure is fatal exactly when it is a structured, destination-reported
/// rejection; such errors do not self-resolve on retrying identical input.
pub open spec fn spec_is_fatal(e: &DeliveryError) -> bool {
    e is Rejected
}

/// The single policy table mapping every destination failure kind to retry
/// or fail: dispatch failures, destination faults and opaque failures are
/// retried with their message as the cause; structured rejections abort
/// delivery, keeping the destination's code and message.
pub fn classify_cloudwatch_error(error: DeliveryError) -> (a: Action)
    ensures
        match error {
            DeliveryError::HttpDispatch(m) => a == Action::Retry(m),
            DeliveryError::InternalServiceFault(m) => a == Action::Retry(m),
            DeliveryError::Unknown(body) => a == Action::Retry(body),
            DeliveryError::Rejected { code, message } => a == Action::Fail(
                DeliveryFailure { code, message },
            ),
        },
        a is Fail <==> spec_is_fatal(&error),
{
    match error {
        DeliveryError::HttpDispatch(m) => Action::Retry(m),
        DeliveryError::InternalServiceFault(m) => Action::Retry(m),
        DeliveryError::Unknown(body) => Action::Retry(body),
        DeliveryError::Rejected { code, message } => Action::Fail(
            DeliveryFailure { code, message },
        ),
    }
}

// ---------------------------------------------------------------------------
// The delivery plan: consecutive batches of at most MAX_BATCH records.
// ---------------------------------------------------------------------------

/// The queue partitioned into consecutive batches of at most `MAX_BATCH`
/// records, in order.
pub open spec fn spec_batches<T>(s: Seq<T>) -> Seq<Seq<T>>
    decreases s.len(),
{
    if s.len() == 0 {
        Seq::empty()
    } else if s.len() <= MAX_BATCH {
        seq![s]
    } else {
        seq![s.take(MAX_BATCH as int)] + spec_batches(s.skip(MAX_BATCH as int))
    }
}

/// Law: the delivery plan for a queue of `n` records has exactly
/// `ceil(n / 20)` batches; batch `i` is exactly the queue's records from
/// position `20 * i` on (so every batch is nonempty and holds at most 20
/// records, and only the last may be short); concatenated in order, the
/// batches are the queue itself.
pub proof fn lemma_delivery_plan<T>(s: Seq<T>)
    ensures
        spec_batches(s).len() == (s.len() + MAX_BATCH - 1) / (MAX_BATCH as int),
        forall|i: int|
            0 <= i < spec_batches(s).len() ==> spec_batches(s)[i] == s.subrange(
                MAX_BATCH * i,
                if MAX_BATCH * (i + 1) <= s.len() { MAX_BATCH * (i + 1) } else { s.len() as int },
            ),
        forall|i: int|
            0 <= i < spec_batches(s).len() ==> 1 <= (#[trigger] spec_batches(s)[i]).len()
                <= MAX_BATCH,
        spec_batches(s).flatten() == s,
    decreases s.len(),
{
    if s.len() == 0 {
        assert(spec_batches(s).flatten() =~= s);
    } else if s.len() <= MAX_BATCH {
        assert(spec_batches(s)[0] =~= s.subrange(0, s.len() as int));
        seq![s].lemma_flatten_one_element();
    } else {
        let rest = s.skip(MAX_BATCH as int);
        lemma_delivery_plan(rest);
        let b = spec_batches(s);
        assert(b.drop_first() =~= spec_batches(rest));
        assert(b.first() == s.take(MAX_BATCH as int));
        assert forall|i: int| 0 <= i < b.len() implies b[i] == s.subrange(
            MAX_BATCH * i,
            if MAX_BATCH * (i + 1) <= s.len() {
                MAX_BATCH * (i + 1)
            } else {
                s.len() as int
            },
        ) by {
            if i == 0 {
                assert(b[0] =~= s.subrange(0, MAX_BATCH as int));
            } else {
                assert(b[i] == spec_batches(rest)[i - 1]);
                assert(rest.subrange(
                    MAX_BATCH * (i - 1),
                    if MAX_BATCH * i <= rest.len() {
                        MAX_BATCH * i
                    } else {
                        rest.len() as int
                    },
                ) =~= s.subrange(
                    MAX_BATCH * i,
                    if MAX_BATCH * (i + 1) <= s.len() {
                        MAX_BATCH * (i + 1)
                    } else {
                        s.len() as int
                    },
                ));
            }
        }
        assert(b.flatten() == b.first() + b.drop_first().flatten());
        assert(b.flatten() =~= s);
    }
}

// ---------------------------------------------------------------------------
// The transformer: statistics + metadata mapping -> appended metric records.
// ---------------------------------------------------------------------------

/// The records one statistics entry contributes, one per sample and in
/// sample order: the mapped dimensions unchanged, the sample's name, unit
/// and value, and the snapshot instant rendered as ISO-8601.
pub open spec fn spec_records_of(s: StatsView, dims: Seq<DimensionView>) -> Seq<MetricRecordView> {
    Seq::new(
        s.metrics.len(),
        |j: int|
            MetricRecordView {
                dimensions: dims,
                metric_name: s.metrics[j].name,
                timestamp: spec_format_timestamp(s.timestamp),
                unit: s.metrics[j].unit,
                value_bits: s.metrics[j].value_bits,
            },
    )
}

/// Everything one poll cycle appends to the queue: for each statistics
/// entry whose container id the mapping knows, its records, in entry order;
/// an entry with an unknown id contributes nothing.
pub open spec fn spec_transformed(
    stats: Seq<StatsView>,
    metadata: Map<Seq<char>, Seq<DimensionView>>,
) -> Seq<MetricRecordView>
    decreases stats.len(),
{
    if stats.len() == 0 {
        Seq::empty()
    } else {
        spec_transformed(stats.drop_last(), metadata) + (
        if metadata.contains_key(stats.last().container_id) {
            spec_records_of(stats.last(), metadata[stats.last().container_id])
        } else {
            Seq::empty()
        })
    }
}

/// Law: a statistics entry whose container id is absent from the metadata
/// mapping contributes no records at all -- dropping the entry leaves the
/// transformer's output, including every record of the other entries,
/// unchanged.
pub proof fn lemma_unknown_container_contributes_nothing(
    stats: Seq<StatsView>,
    metadata: Map<Seq<char>, Seq<DimensionView>>,
    i: int,
)
    requires
        0 <= i < stats.len(),
        !metadata.contains_key(stats[i].container_id),
    ensures
        spec_transformed(stats, metadata) == spec_transformed(stats.remove(i), metadata),
    decreases stats.len(),
{
    if i == stats.len() - 1 {
        assert(stats.remove(i) =~= stats.drop_last());
        assert(spec_transformed(stats, metadata) =~= spec_transformed(
            stats.drop_last(),
            metadata,
        ));
    } else {
        lemma_unknown_container_contributes_nothing(stats.drop_last(), metadata, i);
        assert(stats.remove(i).drop_last() =~= stats.drop_last().remove(i));
        assert(stats.remove(i).last() == stats.last());
        assert(spec_transformed(stats, metadata) =~= spec_transformed(
            stats.remove(i),
            metadata,
        ));
    }
}

/// Appends to `metrics` one record per sample of every statistics entry
/// whose container id the metadata mapping knows, in entry order then
/// sample order; entries with an unknown id are skipped entirely. Existing
/// queue entries are neither read nor evicted.
pub fn metrics_from_stats(metrics: &mut Metrics, stats: Vec<Stats>, metadata: &MetadataMap)
    requires
        metadata.wf(),
        forall|i: int| 0 <= i < stats@.len() ==> (#[trigger] stats@[i]).timestamp.wf(),
    ensures
        final(metrics).deep_view() == old(metrics).deep_view() + spec_transformed(
            stats.deep_view(),
            metadata@,
        ),
{
    let n = stats.len();
    let mut i: usize = 0;
    while i < n
        invariant
            i <= n,
            n == stats@.len(),
            metadata.wf(),
            forall|k: int| 0 <= k < stats@.len() ==> (#[trigger] stats@[k]).timestamp.wf(),
            metrics.deep_view() == old(metrics).deep_view() + spec_transformed(
                stats.deep_view().take(i as int),
                metadata@,
            ),
        decreases n - i,
    {
        let s = &stats[i];
        let ghost sv = s.deep_view();
        let ghost base = metrics.deep_view();
        match metadata.get(&s.container_id) {
            None => {},
            Some(md) => {
                let ghost dims = md.dimensions.deep_view();
                let rendered = format_timestamp(&s.timestamp);
                let m = s.metrics.len();
                let mut j: usize = 0;
                while j < m
                    invariant
                        j <= m,
                        m == s.metrics@.len(),
                        sv == s.deep_view(),
                        dims == md.dimensions.deep_view(),
                        rendered@ == spec_format_timestamp(sv.timestamp),
                        metrics.deep_view() == base + spec_records_of(sv, dims).take(j as int),
                    decreases m - j,
                {
                    let dimensions = md.dimensions.clone();
                    proof {
                        assert(dimensions@ =~= md.dimensions@);
                        assert(dimensions.deep_view() =~= dims);
                    }
                    let record = MetricRecord {
                        dimensions,
                        metric_name: s.metrics[j].name.clone(),
                        timestamp: rendered.clone(),
                        unit: s.metrics[j].unit.clone(),
                        value_bits: s.metrics[j].value_bits,
                    };
                    let ghost rv = record.deep_view();
                    let ghost pre = metrics.deep_view();
                    metrics.push(record);
                    proof {
                        assert(rv =~= spec_records_of(sv, dims)[j as int]);
                        assert(metrics.deep_view() =~= pre.push(rv));
                        assert(metrics.deep_view() =~= base + spec_records_of(sv, dims).take(
                            j + 1int,
                        ));
                    }
                    j += 1;
                }
                proof {
                    assert(spec_records_of(sv, dims).take(m as int) =~= spec_records_of(
                        sv,
                        dims,
                    ));
                }
            },
        }
        proof {
            let taken = stats.deep_view().take(i + 1int);
            assert(taken.drop_last() =~= stats.deep_view().take(i as int));
            assert(taken.last() == sv);
            assert(metrics.deep_view() =~= old(metrics).deep_view() + spec_transformed(
                taken,
                metadata@,
            ));
        }
        i += 1;
    }
    proof {
        assert(stats.deep_view().take(n as int) =~= stats.deep_view());
    }
}

// ---------------------------------------------------------------------------
// The deliverer: send the queue in batches, count confirmed records.
// ---------------------------------------------------------------------------

/// A delivery client capability: sends one batch of records to the
/// ingestion service under a namespace.
///
/// `possible_outcome` is the spec-level description of which outcomes a
/// delivery attempt on this sink can have; an implementation whose attempts
/// always succeed, for instance, makes it hold of `Ok` alone, and the
/// deliverer's contract then owes the full queue length as confirmed.
pub trait MetricSink {
    /// Which outcomes one delivery attempt on this sink can have. Left at
    /// its default, every outcome counts as possible.
    open spec fn possible_outcome(&self, r: &Result<(), DeliveryError>) -> bool {
        true
    }

    /// Sends one batch of at most `MAX_BATCH` records under `namespace`.
    fn put_metric_data(&self, namespace: &str, batch: &[MetricRecord]) -> (r: Result<
        (),
        DeliveryError,
    >)
        requires
            batch@.len() <= MAX_BATCH,
        ensures
            self.possible_outcome(&r),
    ;
}

/// Attempts to deliver the queued records, in order, in consecutive batches
/// of at most `MAX_BATCH` (the batches of `spec_batches`), and reports how
/// many records were confirmed delivered.
///
/// A batch that fails with a retryable failure ends the call early with the
/// count confirmed so far; a fatal failure aborts the call with the
/// destination's code and message. An empty queue makes no delivery attempt
/// and reports zero. On a sink that cannot fail fatally the call never
/// returns an error, and on one that cannot fail at all the whole queue is
/// confirmed.
pub fn report_to_cloudwatch<C: MetricSink>(client: &C, namespace: &str, data: &Metrics) -> (r:
    Result<usize, DeliveryFailure>)
    ensures
        r matches Ok(n) ==> n <= data@.len() && (n == data@.len() || (n as int) % (MAX_BATCH as int) == 0),
        data@.len() == 0 ==> r == Ok::<usize, DeliveryFailure>(0),
        (forall|e: DeliveryError| client.possible_outcome(&Err(e)) ==> !spec_is_fatal(&e))
            ==> (r is Ok),
        (forall|e: DeliveryError| !client.possible_outcome(&Err(e))) ==> r == (Ok::<
            usize,
            DeliveryFailure,
        >(data.len() as usize)),
        r matches Err(f) ==> (exists|e: DeliveryError|
            client.possible_outcome(&Err(e)) && e == (DeliveryError::Rejected {
                code: f.code,
                message: f.message,
            })),
{
    let len = data.len();
    let mut start: usize = 0;
    while start < len
        invariant
            len == data@.len(),
            start <= len,
            start % MAX_BATCH == 0 || start == len,
        decreases len - start,
    {
        let end = if len - start > MAX_BATCH {
            start + MAX_BATCH
        } else {
            len
        };
        let batch = vstd::slice::slice_subrange(data.as_slice(), start, end);
        proof {
            // The batch sent is exactly the next batch of the delivery plan.
            lemma_delivery_plan(data@);
            assert(MAX_BATCH * ((start / MAX_BATCH) as int) == start as int);
            assert(batch@ == spec_batches(data@)[(start / MAX_BATCH) as int]);
        }
        match client.put_metric_data(namespace, batch) {
            Ok(_) => {
                start = end;
            },
            Err(err) => {
                let ghost witness = err;
                match classify_cloudwatch_error(err) {
                    Action::Retry(_) => {
                        proof {
                            assert(client.possible_outcome(&Err(witness)));
                        }
                        return Ok(start);
                    },
                    Action::Fail(failure) => {
                        proof {
                            assert(client.possible_outcome(&Err(witness)));
                            assert(witness == DeliveryError::Rejected {
                                code: failure.code,
                                message: failure.message,
                            });
                        }
                        return Err(failure);
                    },
                }
            },
        }
    }
    Ok(start)
}

} // verus!
