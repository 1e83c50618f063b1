//! The data model of one poll cycle: container metadata, raw statistics,
//! and the mapping from container id to the dimensions its metrics carry.
//!
//! Metadata and statistics are rebuilt from scratch each cycle from the
//! snapshots an external fetcher hands over as plain values; nothing here
//! is shared across cycles.

use vstd::prelude::*;
use vstd::string::StrSliceExecFns;

use crate::timestamp::Timestamp;

verus! {

/// A name/value tag attached to a metric for grouping at the destination.
#[derive(Debug, PartialEq)]
pub struct Dimension {
    pub name: String,
    pub value: String,
}

/// Per-container record of the dimensions to attach to every metric the
/// container emits.
#[derive(Debug, PartialEq)]
pub struct Metadata {
    pub container_id: String,
    pub dimensions: Vec<Dimension>,
}

/// One (name, unit, value) sample extracted from a raw statistics object,
/// before dimension enrichment. `value_bits` holds the IEEE-754 bit pattern
/// of the sample's numeric value, which this crate carries through opaquely.
#[derive(Debug, PartialEq)]
pub struct Metric {
    pub name: String,
    pub unit: String,
    pub value_bits: u64,
}

/// The samples read from one container in one poll cycle, with the instant
/// the statistics were read.
#[derive(Debug, PartialEq)]
pub struct Stats {
    pub container_id: String,
    pub metrics: Vec<Metric>,
    pub timestamp: Timestamp,
}

/// One container as the metadata endpoint describes it: its docker id and
/// its name.
#[derive(Debug, PartialEq)]
pub struct Container {
    pub docker_id: String,
    pub name: String,
}

/// The memory readings of one container, with the instant they were read.
/// The two values hold IEEE-754 bit patterns, carried through opaquely.
#[derive(Clone, Copy, Debug, PartialEq)]
pub struct MemorySnapshot {
    pub timestamp: Timestamp,
    pub max_usage_bits: u64,
    pub usage_bits: u64,
}

/// One entry of the statistics endpoint's reply: a container id and its
/// memory readings, or `None` where the endpoint reported no data yet.
#[derive(Debug, PartialEq)]
pub struct StatsEntry {
    pub container_id: String,
    pub snapshot: Option<MemorySnapshot>,
}

// ---------------------------------------------------------------------------
// Mathematical views of the model types, with strings as character sequences.
// ---------------------------------------------------------------------------

#[verifier::ext_equal]
pub struct DimensionView {
    pub name: Seq<char>,
    pub value: Seq<char>,
}

#[verifier::ext_equal]
pub struct MetadataView {
    pub container_id: Seq<char>,
    pub dimensions: Seq<DimensionView>,
}

#[verifier::ext_equal]
pub struct MetricView {
    pub name: Seq<char>,
    pub unit: Seq<char>,
    pub value_bits: u64,
}

#[verifier::ext_equal]
pub struct StatsView {
    pub container_id: Seq<char>,
    pub metrics: Seq<MetricView>,
    pub timestamp: Timestamp,
}

#[verifier::ext_equal]
pub struct ContainerView {
    pub docker_id: Seq<char>,
    pub name: Seq<char>,
}

#[verifier::ext_equal]
pub struct StatsEntryView {
    pub container_id: Seq<char>,
    pub snapshot: Option<MemorySnapshot>,
}

impl View for Dimension {
    type V = DimensionView;

    open spec fn view(&self) -> DimensionView {
        DimensionView { name: self.name@, value: self.value@ }
    }
}

impl DeepView for Dimension {
    type V = DimensionView;

    open spec fn deep_view(&self) -> DimensionView {
        self@
    }
}

impl View for Metadata {
    type V = MetadataView;

    open spec fn view(&self) -> MetadataView {
        MetadataView { container_id: self.container_id@, dimensions: self.dimensions.deep_view() }
    }
}

impl DeepView for Metadata {
    type V = MetadataView;

    open spec fn deep_view(&self) -> MetadataView {
        self@
    }
}

impl View for Metric {
    type V = MetricView;

    open spec fn view(&self) -> MetricView {
        MetricView { name: self.name@, unit: self.unit@, value_bits: self.value_bits }
    }
}

impl DeepView for Metric {
    type V = MetricView;

    open spec fn deep_view(&self) -> MetricView {
        self@
    }
}

impl View for Stats {
    type V = StatsView;

    open spec fn view(&self) -> StatsView {
        StatsView {
            container_id: self.container_id@,
            metrics: self.metrics.deep_view(),
            timestamp: self.timestamp,
        }
    }
}

impl DeepView for Stats {
    type V = StatsView;

    open spec fn deep_view(&self) -> StatsView {
        self@
    }
}

impl View for Container {
    type V = ContainerView;

    open spec fn view(&self) -> ContainerView {
        ContainerView { docker_id: self.docker_id@, name: self.name@ }
    }
}

impl DeepView for Container {
    type V = ContainerView;

    open spec fn deep_view(&self) -> ContainerView {
        self@
    }
}

impl View for StatsEntry {
    type V = StatsEntryView;

    open spec fn view(&self) -> StatsEntryView {
        StatsEntryView { container_id: self.container_id@, snapshot: self.snapshot }
    }
}

impl DeepView for StatsEntry {
    type V = StatsEntryView;

    open spec fn deep_view(&self) -> StatsEntryView {
        self@
    }
}

impl Clone for Dimension {
    fn clone(&self) -> (r: Self)
        ensures
            r == *self,
    {
        Dimension { name: self.name.clone(), value: self.value.clone() }
    }
}

impl Clone for Metric {
    fn clone(&self) -> (r: Self)
        ensures
            r == *self,
    {
        Metric { name: self.name.clone(), unit: self.unit.clone(), value_bits: self.value_bits }
    }
}

// ---------------------------------------------------------------------------
// Prefix tests on strings.
// ---------------------------------------------------------------------------

/// Does `s` start with `p`?
pub open spec fn spec_has_prefix(s: Seq<char>, p: Seq<char>) -> bool {
    p.len() <= s.len() && s.subrange(0, p.len() as int) == p
}

/// Character-by-character prefix test.
pub fn str_has_prefix(s: &str, p: &str) -> (r: bool)
    ensures
        r == spec_has_prefix(s@, p@),
{
    let n = p.unicode_len();
    if s.unicode_len() < n {
        return false;
    }
    let mut i: usize = 0;
    while i < n
        invariant
            i <= n,
            n == p@.len(),
            n <= s@.len(),
            forall|j: int| 0 <= j < i ==> s@[j] == p@[j],
        decreases n - i,
    {
        if s.get_char(i) != p.get_char(i) {
            proof {
                assert(s@.subrange(0, n as int)[i as int] == s@[i as int]);
            }
            return false;
        }
        i += 1;
    }
    proof {
        assert(s@.subrange(0, n as int) =~= p@);
    }
    true
}

// ---------------------------------------------------------------------------
// The mapping from container id to metadata.
// ---------------------------------------------------------------------------

/// The mapping an entry sequence denotes: each entry maps its container id
/// to its dimensions, a later entry overriding an earlier one with the
/// same id.
pub open spec fn entries_map(s: Seq<MetadataView>) -> Map<Seq<char>, Seq<DimensionView>>
    decreases s.len(),
{
    if s.len() == 0 {
        Map::empty()
    } else {
        entries_map(s.drop_last()).insert(s.last().container_id, s.last().dimensions)
    }
}

proof fn lemma_entries_map_absent(s: Seq<MetadataView>, k: Seq<char>)
    requires
        forall|i: int| 0 <= i < s.len() ==> s[i].container_id != k,
    ensures
        !entries_map(s).contains_key(k),
    decreases s.len(),
{
    if s.len() > 0 {
        lemma_entries_map_absent(s.drop_last(), k);
    }
}

proof fn lemma_entries_map_finite(s: Seq<MetadataView>)
    ensures
        entries_map(s).dom().finite(),
    decreases s.len(),
{
    if s.len() > 0 {
        lemma_entries_map_finite(s.drop_last());
    }
}

proof fn lemma_entries_map_get(s: Seq<MetadataView>, i: int)
    requires
        0 <= i < s.len(),
        forall|j: int, k: int|
            0 <= j < k < s.len() ==> s[j].container_id != s[k].container_id,
    ensures
        entries_map(s).contains_key(s[i].container_id),
        entries_map(s)[s[i].container_id] == s[i].dimensions,
    decreases s.len(),
{
    if i < s.len() - 1 {
        lemma_entries_map_get(s.drop_last(), i);
    }
}

proof fn lemma_entries_map_remove(s: Seq<MetadataView>, i: int)
    requires
        0 <= i < s.len(),
        forall|j: int, k: int|
            0 <= j < k < s.len() ==> s[j].container_id != s[k].container_id,
    ensures
        entries_map(s.remove(i)) == entries_map(s).remove(s[i].container_id),
    decreases s.len(),
{
    let k = s[i].container_id;
    if i == s.len() - 1 {
        assert(s.remove(i) =~= s.drop_last());
        lemma_entries_map_absent(s.drop_last(), k);
        assert(entries_map(s.drop_last()) =~= entries_map(s).remove(k));
    } else {
        lemma_entries_map_remove(s.drop_last(), i);
        assert(s.remove(i).drop_last() =~= s.drop_last().remove(i));
        assert(s.remove(i).last() == s.last());
        assert(entries_map(s.remove(i)) =~= entries_map(s).remove(k));
    }
}

proof fn lemma_entries_map_len(s: Seq<MetadataView>)
    requires
        forall|j: int, k: int|
            0 <= j < k < s.len() ==> s[j].container_id != s[k].container_id,
    ensures
        entries_map(s).dom().finite(),
        entries_map(s).len() == s.len(),
    decreases s.len(),
{
    lemma_entries_map_finite(s);
    if s.len() > 0 {
        lemma_entries_map_len(s.drop_last());
        lemma_entries_map_absent(s.drop_last(), s.last().container_id);
        assert(entries_map(s).dom() =~= entries_map(s.drop_last()).dom().insert(
            s.last().container_id,
        ));
    }
}

/// The per-cycle mapping from container id to the metadata to attach to
/// that container's metrics. Inserting under an id already present replaces
/// the earlier entry.
pub struct MetadataMap {
    entries: Vec<Metadata>,
}

impl View for MetadataMap {
    type V = Map<Seq<char>, Seq<DimensionView>>;

    closed spec fn view(&self) -> Map<Seq<char>, Seq<DimensionView>> {
        entries_map(self.entries.deep_view())
    }
}

impl MetadataMap {
    /// No two entries share a container id; every well-formed mapping the
    /// constructors build keeps this.
    pub closed spec fn wf(self) -> bool {
        forall|j: int, k: int|
            0 <= j < k < self.entries.len() ==> self.entries[j].container_id@
                != self.entries[k].container_id@
    }

    /// An empty mapping.
    pub fn new() -> (r: Self)
        ensures
            r.wf(),
            r@ == Map::<Seq<char>, Seq<DimensionView>>::empty(),
    {
        MetadataMap { entries: Vec::new() }
    }

    /// The position of the entry for `container_id`, if one is present.
    fn index_of(&self, container_id: &String) -> (r: Option<usize>)
        ensures
            match r {
                Some(i) => i < self.entries.len() && self.entries[i as int].container_id@
                    == container_id@,
                None => forall|j: int|
                    0 <= j < self.entries.len() ==> self.entries[j].container_id@ != container_id@,
            },
    {
        let n = self.entries.len();
        let mut i: usize = 0;
        while i < n
            invariant
                i <= n,
                n == self.entries.len(),
                forall|j: int| 0 <= j < i ==> self.entries[j].container_id@ != container_id@,
            decreases n - i,
        {
            if self.entries[i].container_id == *container_id {
                return Some(i);
            }
            i += 1;
        }
        None
    }

    /// How many container ids are mapped.
    pub fn len(&self) -> (n: usize)
        requires
            self.wf(),
        ensures
            n == self@.len(),
    {
        proof {
            lemma_entries_map_len(self.entries.deep_view());
        }
        self.entries.len()
    }

    /// Is `container_id` mapped?
    pub fn contains_key(&self, container_id: &String) -> (r: bool)
        requires
            self.wf(),
        ensures
            r == self@.contains_key(container_id@),
    {
        match self.index_of(container_id) {
            Some(i) => {
                proof {
                    lemma_entries_map_get(self.entries.deep_view(), i as int);
                }
                true
            },
            None => {
                proof {
                    lemma_entries_map_absent(self.entries.deep_view(), container_id@);
                }
                false
            },
        }
    }

    /// The metadata mapped under `container_id`, if any.
    pub fn get(&self, container_id: &String) -> (r: Option<&Metadata>)
        requires
            self.wf(),
        ensures
            match r {
                Some(m) => self@.contains_key(container_id@) && m.container_id@ == container_id@
                    && m.dimensions.deep_view() == self@[container_id@],
                None => !self@.contains_key(container_id@),
            },
    {
        match self.index_of(container_id) {
            Some(i) => {
                proof {
                    lemma_entries_map_get(self.entries.deep_view(), i as int);
                }
                Some(&self.entries[i])
            },
            None => {
                proof {
                    lemma_entries_map_absent(self.entries.deep_view(), container_id@);
                }
                None
            },
        }
    }

    /// Maps `m.container_id` to `m`, replacing an earlier entry with the
    /// same id.
    pub fn insert(&mut self, m: Metadata)
        requires
            old(self).wf(),
        ensures
            final(self).wf(),
            final(self)@ == old(self)@.insert(m.container_id@, m.dimensions.deep_view()),
    {
        let ghost s0 = self.entries.deep_view();
        let ghost mv = m.deep_view();
        match self.index_of(&m.container_id) {
            Some(i) => {
                proof {
                    lemma_entries_map_remove(s0, i as int);
                }
                self.entries.remove(i);
                proof {
                    assert(self.entries.deep_view() =~= s0.remove(i as int));
                }
            },
            None => {
                proof {
                    lemma_entries_map_absent(s0, m.container_id@);
                    assert(entries_map(s0) =~= entries_map(s0).remove(mv.container_id));
                }
            },
        }
        let ghost s1 = self.entries.deep_view();
        self.entries.push(m);
        proof {
            assert(self.entries.deep_view().drop_last() =~= s1);
            assert(self.entries.deep_view().last() == mv);
            assert(entries_map(s1) == entries_map(s0).remove(mv.container_id));
            assert(final(self)@ =~= old(self)@.insert(mv.container_id, mv.dimensions));
        }
    }
}

// ---------------------------------------------------------------------------
// Building the per-cycle mapping and statistics from endpoint snapshots.
// ---------------------------------------------------------------------------

/// The name under which a container's name is attached to its metrics.
pub open spec fn dimension_name() -> Seq<char> {
    "task"@
}

/// Containers whose name starts with this marker are internal to the
/// orchestrator and excluded from the mapping.
pub open spec fn internal_prefix() -> Seq<char> {
    "~internal"@
}

/// The metadata mapping that a container listing denotes: every container
/// whose name does not start with the internal marker is mapped, under its
/// docker id, to the single dimension `task` = container name; a later
/// listing of the same id replaces an earlier one.
pub open spec fn spec_task_metadata(s: Seq<ContainerView>) -> Map<Seq<char>, Seq<DimensionView>>
    decreases s.len(),
{
    if s.len() == 0 {
        Map::empty()
    } else {
        let m = spec_task_metadata(s.drop_last());
        let c = s.last();
        if spec_has_prefix(c.name, internal_prefix()) {
            m
        } else {
            m.insert(c.docker_id, seq![DimensionView { name: dimension_name(), value: c.name }])
        }
    }
}

/// Builds the per-cycle metadata mapping from the containers the metadata
/// endpoint listed, skipping internal containers.
pub fn task_metadata(containers: Vec<Container>) -> (m: MetadataMap)
    ensures
        m.wf(),
        m@ == spec_task_metadata(containers.deep_view()),
{
    let mut m = MetadataMap::new();
    let n = containers.len();
    let mut i: usize = 0;
    while i < n
        invariant
            i <= n,
            n == containers.len(),
            m.wf(),
            m@ == spec_task_metadata(containers.deep_view().take(i as int)),
        decreases n - i,
    {
        let c = &containers[i];
        let ghost pre = containers.deep_view().take(i as int);
        if !str_has_prefix(c.name.as_str(), "~internal") {
            let dimensions = vec![Dimension { name: "task".to_owned(), value: c.name.clone() }];
            proof {
                assert(dimensions.deep_view() =~= seq![
                    DimensionView { name: dimension_name(), value: c.name@ },
                ]);
            }
            m.insert(Metadata { container_id: c.docker_id.clone(), dimensions });
        }
        proof {
            let post = containers.deep_view().take(i + 1int);
            assert(post.drop_last() =~= pre);
            assert(post.last() == containers.deep_view()[i as int]);
        }
        i += 1;
    }
    proof {
        assert(containers.deep_view().take(n as int) =~= containers.deep_view());
    }
    m
}

/// The metric samples drawn from one memory snapshot, in table order:
/// the high-water mark, then the current usage, both in `Bytes`.
pub open spec fn spec_memory_metrics(s: MemorySnapshot) -> Seq<MetricView> {
    seq![
        MetricView { name: "max_usage"@, unit: "Bytes"@, value_bits: s.max_usage_bits },
        MetricView { name: "usage"@, unit: "Bytes"@, value_bits: s.usage_bits },
    ]
}

/// The statistics that an endpoint reply denotes: entries without readings
/// are skipped; every other entry yields one statistics record with the two
/// memory samples, in reply order.
pub open spec fn spec_container_stats(s: Seq<StatsEntryView>) -> Seq<StatsView>
    decreases s.len(),
{
    if s.len() == 0 {
        Seq::empty()
    } else {
        let rest = spec_container_stats(s.drop_last());
        match s.last().snapshot {
            None => rest,
            Some(snap) => rest.push(
                StatsView {
                    container_id: s.last().container_id,
                    metrics: spec_memory_metrics(snap),
                    timestamp: snap.timestamp,
                },
            ),
        }
    }
}

/// Builds the per-cycle statistics records from the entries the statistics
/// endpoint listed, skipping containers that reported no readings yet.
pub fn container_stats(entries: Vec<StatsEntry>) -> (r: Vec<Stats>)
    ensures
        r.deep_view() == spec_container_stats(entries.deep_view()),
{
    let mut r: Vec<Stats> = Vec::new();
    let n = entries.len();
    let mut i: usize = 0;
    while i < n
        invariant
            i <= n,
            n == entries.len(),
            r.deep_view() == spec_container_stats(entries.deep_view().take(i as int)),
        decreases n - i,
    {
        let e = &entries[i];
        let ghost pre = r.deep_view();
        match &e.snapshot {
            None => {},
            Some(snap) => {
                let metrics = vec![
                    Metric {
                        name: "max_usage".to_owned(),
                        unit: "Bytes".to_owned(),
                        value_bits: snap.max_usage_bits,
                    },
                    Metric {
                        name: "usage".to_owned(),
                        unit: "Bytes".to_owned(),
                        value_bits: snap.usage_bits,
                    },
                ];
                proof {
                    assert(metrics.deep_view() =~= spec_memory_metrics(*snap));
                }
                let stat = Stats {
                    container_id: e.container_id.clone(),
                    metrics,
                    timestamp: snap.timestamp,
                };
                let ghost sv = stat.deep_view();
                r.push(stat);
                proof {
                    assert(r.deep_view() =~= pre.push(sv));
                }
            },
        }
        proof {
            let post = entries.deep_view().take(i + 1int);
            assert(post.drop_last() =~= entries.deep_view().take(i as int));
            assert(post.last() == entries.deep_view()[i as int]);
        }
        i += 1;
    }
    proof {
        assert(entries.deep_view().take(n as int) =~= entries.deep_view());
    }
    r
}

} // verus!
