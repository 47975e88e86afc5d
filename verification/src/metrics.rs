//! The metrics store: counters and gauges per workload, kept in prometheus
//! vectors, and their rendering as exposition text.
//!
//! A vector finds a series by a 64-bit key of its label values, so that is
//! what the model is keyed by: two label tuples with one key are one series.

use crate::event::{EnrichedOomEvent, EnrichedOomEventView, OomKillEvent};
use vstd::prelude::*;
use vstd::string::StringExecFns;

verus! {

/// The series of one family: by key, the label values that the series was
/// created with and its present value.
pub type Children = Map<u64, (Seq<Seq<char>>, u64)>;

/// One family as the renderer sees it.
pub struct FamilyView {
    /// The family's name, its help text and its label names, in this order.
    pub schema: Seq<Seq<char>>,
    /// A counter, or else a gauge.
    pub counter: bool,
    pub children: Children,
}

/// A prometheus vector of integer counters (`IntCounterVec`). Opaque: what
/// it holds is known through `counter_children` and `counter_schema` alone.
#[verifier::external_body]
pub struct CounterFamily {
    inner: prometheus::IntCounterVec,
}

/// A prometheus vector of unsigned integer gauges (`GenericGaugeVec` over
/// `AtomicU64`). Opaque: what it holds is known through `gauge_children`
/// and `gauge_schema` alone.
#[verifier::external_body]
pub struct GaugeFamily {
    inner: prometheus::core::GenericGaugeVec<prometheus::core::AtomicU64>,
}

/// `prometheus::Error`. Nothing is known of its content.
#[verifier::external_type_specification]
#[verifier::external_body]
pub struct ExPrometheusError(prometheus::Error);

/// The key under which a vector keeps the series of these label values
/// (`MetricVec` hashes the values' bytes, one value after the other).
pub uninterp spec fn label_key(values: Seq<Seq<char>>) -> u64;

/// The series that a counter vector holds.
pub uninterp spec fn counter_children(family: CounterFamily) -> Map<u64, (Seq<Seq<char>>, u64)>;

/// The name, help text and label names that a counter vector was made with.
pub uninterp spec fn counter_schema(family: CounterFamily) -> Seq<Seq<char>>;

/// The series that a gauge vector holds.
pub uninterp spec fn gauge_children(family: GaugeFamily) -> Map<u64, (Seq<Seq<char>>, u64)>;

/// The name, help text and label names that a gauge vector was made with.
pub uninterp spec fn gauge_schema(family: GaugeFamily) -> Seq<Seq<char>>;

/// Whether prometheus accepts a name, a help text and label names as the
/// description of a vector (`Desc::new`).
pub uninterp spec fn schema_accepted(schema: Seq<Seq<char>>) -> bool;

/// Whether a fresh `Registry` accepts vectors of these schemas, registered
/// in this order.
pub uninterp spec fn registrable(schemas: Seq<Seq<Seq<char>>>) -> bool;

/// The exposition text of these families, as `Registry::gather` orders them
/// and `TextEncoder` writes them.
pub uninterp spec fn exposition_text(families: Seq<FamilyView>) -> Seq<char>;

/// The texts of a list of strings.
pub open spec fn texts(values: Seq<&str>) -> Seq<Seq<char>> {
    values.map_values(|s: &str| s@)
}

/// A schema: name, help text, then the label names.
pub open spec fn schema_of(name: Seq<char>, help: Seq<char>, labels: Seq<Seq<char>>) -> Seq<
    Seq<char>,
> {
    seq![name, help] + labels
}

/// A family without series.
pub open spec fn no_children() -> Children {
    Map::empty()
}

/// A counter after one more count: 64 bits, wrapping.
pub open spec fn next_count(count: u64) -> u64 {
    if count == u64::MAX {
        0
    } else {
        (count + 1) as u64
    }
}

/// The series after the one under `key` was counted up; it is created with
/// `values` and a count of one where it is not there yet.
pub open spec fn bumped(children: Children, key: u64, values: Seq<Seq<char>>) -> Children {
    if children.contains_key(key) {
        children.insert(key, (children[key].0, next_count(children[key].1)))
    } else {
        children.insert(key, (values, 1))
    }
}

/// The series after the one under `key` was set to `value`; it is created
/// with `values` where it is not there yet.
pub open spec fn stored(children: Children, key: u64, values: Seq<Seq<char>>, value: u64)
    -> Children {
    if children.contains_key(key) {
        children.insert(key, (children[key].0, value))
    } else {
        children.insert(key, (values, value))
    }
}

/// `IntCounterVec::new` with `Opts::new(name, help)`. Trusted: it succeeds
/// exactly where the description is accepted, and the new vector has that
/// description and no series.
#[verifier::external_body]
fn counter_family(name: &str, help: &str, labels: &[&str]) -> (r: Result<CounterFamily, prometheus::Error>)
    ensures
        r is Ok <==> schema_accepted(schema_of(name@, help@, texts(labels@))),
        r matches Ok(family) ==> counter_schema(family) == schema_of(
            name@,
            help@,
            texts(labels@),
        ) && counter_children(family) == no_children(),
{
    let inner = prometheus::IntCounterVec::new(prometheus::Opts::new(name, help), labels)?;
    Ok(CounterFamily { inner })
}

/// `GenericGaugeVec::new` with `Opts::new(name, help)`. Trusted: it succeeds
/// exactly where the description is accepted, and the new vector has that
/// description and no series.
#[verifier::external_body]
fn gauge_family(name: &str, help: &str, labels: &[&str]) -> (r: Result<GaugeFamily, prometheus::Error>)
    ensures
        r is Ok <==> schema_accepted(schema_of(name@, help@, texts(labels@))),
        r matches Ok(family) ==> gauge_schema(family) == schema_of(name@, help@, texts(labels@))
            && gauge_children(family) == no_children(),
{
    let inner = prometheus::core::GenericGaugeVec::new(prometheus::Opts::new(name, help), labels)?;
    Ok(GaugeFamily { inner })
}

/// `MetricVec::with_label_values` and `inc` on what it returns. Trusted:
/// with one value per label name the call does not panic; the series under
/// the values' key is counted up by one, wrapping at 64 bits, and is created
/// first where it is missing.
#[verifier::external_body]
fn counter_inc(family: &mut CounterFamily, values: &[&str])
    requires
        values@.len() + 2 == counter_schema(*old(family)).len(),
    ensures
        counter_schema(*final(family)) == counter_schema(*old(family)),
        counter_children(*final(family)) == bumped(
            counter_children(*old(family)),
            label_key(texts(values@)),
            texts(values@),
        ),
    no_unwind
{
    family.inner.with_label_values(values).inc();
}

/// `MetricVec::with_label_values` and `set` on what it returns. Trusted:
/// with one value per label name the call does not panic; the series under
/// the values' key holds `value` afterwards and is created first where it is
/// missing.
#[verifier::external_body]
fn gauge_set(family: &mut GaugeFamily, values: &[&str], value: u64)
    requires
        values@.len() + 2 == gauge_schema(*old(family)).len(),
    ensures
        gauge_schema(*final(family)) == gauge_schema(*old(family)),
        gauge_children(*final(family)) == stored(
            gauge_children(*old(family)),
            label_key(texts(values@)),
            texts(values@),
            value,
        ),
    no_unwind
{
    family.inner.with_label_values(values).set(value);
}

/// The family of a counter vector as the renderer sees it.
pub open spec fn counter_view(family: CounterFamily) -> FamilyView {
    FamilyView {
        schema: counter_schema(family),
        counter: true,
        children: counter_children(family),
    }
}

/// The family of a gauge vector as the renderer sees it.
pub open spec fn gauge_view(family: GaugeFamily) -> FamilyView {
    FamilyView { schema: gauge_schema(family), counter: false, children: gauge_children(family) }
}

/// Registers the four vectors with a fresh `Registry` (`Registry::register`),
/// collects them with `Registry::gather` and writes the result with
/// `TextEncoder::encode_to_string`. Trusted: the call fails exactly where the
/// registry refuses one of the vectors, which depends on their schemas
/// alone; otherwise the text is that of the four families as they stand.
#[verifier::external_body]
fn render(a: &CounterFamily, b: &CounterFamily, c: &GaugeFamily, d: &GaugeFamily) -> (r: Result<String, prometheus::Error>)
    ensures
        r is Ok <==> registrable(
            seq![counter_schema(*a), counter_schema(*b), gauge_schema(*c), gauge_schema(*d)],
        ),
        r matches Ok(text) ==> text@ == exposition_text(
            seq![counter_view(*a), counter_view(*b), gauge_view(*c), gauge_view(*d)],
        ),
{
    let registry = prometheus::Registry::new();
    registry.register(Box::new(a.inner.clone()))?;
    registry.register(Box::new(b.inner.clone()))?;
    registry.register(Box::new(c.inner.clone()))?;
    registry.register(Box::new(d.inner.clone()))?;
    prometheus::TextEncoder::new().encode_to_string(&registry.gather())
}

/// The state of the store: the series of its four families.
pub struct MetricsView {
    /// Kills per workload.
    pub kills: Children,
    /// Kills per node.
    pub node_kills: Children,
    /// Memory in bytes at the last kill, per workload and kind of memory.
    pub memory: Children,
    /// Time of the last kill, per workload.
    pub last_seen: Children,
}

/// Why the store could not be built.
#[derive(Copy, Clone, Debug, PartialEq, Eq)]
pub enum MetricsError {
    /// A family's name, help text or label names were refused.
    Schema,
    /// The families cannot be registered together.
    Registration,
}

/// What the renderer writes as the content type.
pub const CONTENT_TYPE: &'static str = "text/plain; version=0.0.4; charset=utf-8";

/// The four label names of a workload.
pub open spec fn identity_labels() -> Seq<Seq<char>> {
    seq!["node"@, "namespace"@, "pod"@, "container"@]
}

/// The family of kills per workload.
pub open spec fn kills_schema() -> Seq<Seq<char>> {
    schema_of("oom_kills_total"@, "Total number of OOM kills observed"@, identity_labels())
}

/// The family of kills per node.
pub open spec fn node_kills_schema() -> Seq<Seq<char>> {
    schema_of("oom_kills_per_node_total"@, "Total number of OOM kills per node"@, seq!["node"@])
}

/// The family of memory sizes per workload and kind of memory.
pub open spec fn memory_schema() -> Seq<Seq<char>> {
    schema_of(
        "oom_memory_usage_bytes"@,
        "Memory usage in bytes at the time of OOM kill"@,
        identity_labels().push("memory_type"@),
    )
}

/// The family of times of the last kill per workload.
pub open spec fn last_seen_schema() -> Seq<Seq<char>> {
    schema_of("oom_last_timestamp"@, "Timestamp of the last OOM kill event"@, identity_labels())
}

/// Every family's description is accepted.
pub open spec fn schemas_accepted() -> bool {
    &&& schema_accepted(kills_schema())
    &&& schema_accepted(node_kills_schema())
    &&& schema_accepted(memory_schema())
    &&& schema_accepted(last_seen_schema())
}

/// The four families can be registered together.
pub open spec fn schemas_registrable() -> bool {
    registrable(seq![kills_schema(), node_kills_schema(), memory_schema(), last_seen_schema()])
}

/// The four families of a state, in the order in which they are registered.
pub open spec fn families(view: MetricsView) -> Seq<FamilyView> {
    seq![
        FamilyView { schema: kills_schema(), counter: true, children: view.kills },
        FamilyView { schema: node_kills_schema(), counter: true, children: view.node_kills },
        FamilyView { schema: memory_schema(), counter: false, children: view.memory },
        FamilyView { schema: last_seen_schema(), counter: false, children: view.last_seen },
    ]
}

/// The label under which a part of the identity is recorded: its text, or
/// the placeholder where it is absent.
pub open spec fn label_of(part: Option<Seq<char>>) -> Seq<char> {
    match part {
        Some(text) => text,
        None => "unknown"@,
    }
}

/// The label set of an event: node, namespace, pod and container, each one
/// filled in.
pub open spec fn identity_of(event: EnrichedOomEventView) -> Seq<Seq<char>> {
    seq![
        label_of(event.node_name),
        label_of(event.namespace),
        label_of(event.pod_name),
        label_of(event.container_name),
    ]
}

/// Kibibytes in bytes, held at the largest value where 64 bits are too few.
pub open spec fn bytes_of(kib: u64) -> u64 {
    if kib * 1024 <= u64::MAX {
        (kib * 1024) as u64
    } else {
        u64::MAX
    }
}

/// The series after the one of `values` was counted up.
pub open spec fn counted(children: Children, values: Seq<Seq<char>>) -> Children {
    bumped(children, label_key(values), values)
}

/// The series after the one of `values` was set to `value`.
pub open spec fn assigned(children: Children, values: Seq<Seq<char>>, value: u64) -> Children {
    stored(children, label_key(values), values, value)
}

/// The state after a kill of the workload `identity` was recorded.
pub open spec fn recorded(
    view: MetricsView,
    identity: Seq<Seq<char>>,
    raw: OomKillEvent,
    timestamp: u64,
) -> MetricsView {
    MetricsView {
        kills: counted(view.kills, identity),
        node_kills: counted(view.node_kills, seq![identity[0]]),
        memory: assigned(
            assigned(
                assigned(
                    assigned(view.memory, identity.push("total_vm"@), bytes_of(raw.total_vm)),
                    identity.push("anon_rss"@),
                    bytes_of(raw.anon_rss),
                ),
                identity.push("file_rss"@),
                bytes_of(raw.file_rss),
            ),
            identity.push("shmem_rss"@),
            bytes_of(raw.shmem_rss),
        ),
        last_seen: assigned(view.last_seen, identity, timestamp),
    }
}

/// The state of a store that has recorded nothing.
pub open spec fn empty_view() -> MetricsView {
    MetricsView {
        kills: no_children(),
        node_kills: no_children(),
        memory: no_children(),
        last_seen: no_children(),
    }
}

/// What the metrics endpoint answers.
#[derive(Clone, Debug)]
pub struct MetricsResponse {
    pub content_type: String,
    pub body: String,
}

/// The metrics store.
pub struct MetricsCollector {
    oom_kills_total: CounterFamily,
    oom_kills_per_node_total: CounterFamily,
    oom_memory_usage_bytes: GaugeFamily,
    oom_last_timestamp: GaugeFamily,
}

impl View for MetricsCollector {
    type V = MetricsView;

    /// The series that the four vectors hold.
    closed spec fn view(&self) -> MetricsView {
        MetricsView {
            kills: counter_children(self.oom_kills_total),
            node_kills: counter_children(self.oom_kills_per_node_total),
            memory: gauge_children(self.oom_memory_usage_bytes),
            last_seen: gauge_children(self.oom_last_timestamp),
        }
    }
}

/// Kibibytes in bytes.
fn kib_to_bytes(kib: u64) -> (bytes: u64)
    ensures
        bytes == bytes_of(kib),
{
    if kib > u64::MAX / 1024 {
        u64::MAX
    } else {
        kib * 1024
    }
}

/// The text of a part of the identity, or the placeholder.
fn label<'a>(part: &'a Option<String>) -> (text: &'a str)
    ensures
        text@ == label_of(part.deep_view()),
{
    match part {
        Some(text) => text.as_str(),
        None => "unknown",
    }
}

impl MetricsCollector {
    /// Each vector has the schema of its family, and the four can be
    /// registered together.
    #[verifier::type_invariant]
    spec fn well_formed(self) -> bool {
        &&& counter_schema(self.oom_kills_total) == kills_schema()
        &&& counter_schema(self.oom_kills_per_node_total) == node_kills_schema()
        &&& gauge_schema(self.oom_memory_usage_bytes) == memory_schema()
        &&& gauge_schema(self.oom_last_timestamp) == last_seen_schema()
        &&& schemas_registrable()
    }

    /// Builds the store with its four families and checks that they can be
    /// registered together. A fresh store holds no series.
    pub fn new() -> (r: Result<MetricsCollector, MetricsError>)
        ensures
            match r {
                Ok(store) => schemas_accepted() && schemas_registrable() && store@ == empty_view(),
                Err(MetricsError::Schema) => !schemas_accepted(),
                Err(MetricsError::Registration) => schemas_accepted() && !schemas_registrable(),
            },
    {
        let identity: [&str; 4] = ["node", "namespace", "pod", "container"];
        let node: [&str; 1] = ["node"];
        let memory: [&str; 5] = ["node", "namespace", "pod", "container", "memory_type"];
        proof {
            assert(texts(identity@) =~= identity_labels());
            assert(texts(node@) =~= seq!["node"@]);
            assert(texts(memory@) =~= identity_labels().push("memory_type"@));
        }
        let oom_kills_total = match counter_family(
            "oom_kills_total",
            "Total number of OOM kills observed",
            identity.as_slice(),
        ) {
            Ok(family) => family,
            Err(_) => {
                return Err(MetricsError::Schema);
            },
        };
        let oom_kills_per_node_total = match counter_family(
            "oom_kills_per_node_total",
            "Total number of OOM kills per node",
            node.as_slice(),
        ) {
            Ok(family) => family,
            Err(_) => {
                return Err(MetricsError::Schema);
            },
        };
        let oom_memory_usage_bytes = match gauge_family(
            "oom_memory_usage_bytes",
            "Memory usage in bytes at the time of OOM kill",
            memory.as_slice(),
        ) {
            Ok(family) => family,
            Err(_) => {
                return Err(MetricsError::Schema);
            },
        };
        let oom_last_timestamp = match gauge_family(
            "oom_last_timestamp",
            "Timestamp of the last OOM kill event",
            identity.as_slice(),
        ) {
            Ok(family) => family,
            Err(_) => {
                return Err(MetricsError::Schema);
            },
        };
        match render(
            &oom_kills_total,
            &oom_kills_per_node_total,
            &oom_memory_usage_bytes,
            &oom_last_timestamp,
        ) {
            Ok(_) => Ok(
                MetricsCollector {
                    oom_kills_total,
                    oom_kills_per_node_total,
                    oom_memory_usage_bytes,
                    oom_last_timestamp,
                },
            ),
            Err(_) => Err(MetricsError::Registration),
        }
    }

    /// Records one kill: counts it for the workload and for the node, sets
    /// the workload's four memory gauges to the record's sizes in bytes, and
    /// sets the workload's time of the last kill.
    pub fn record_oom_event(&mut self, event: &EnrichedOomEvent)
        ensures
            final(self)@ == recorded(
                old(self)@,
                identity_of(event.deep_view()),
                event.raw_event,
                event.timestamp,
            ),
    {
        proof {
            use_type_invariant(&*self);
        }
        let node = label(&event.node_name);
        let namespace = label(&event.namespace);
        let pod = label(&event.pod_name);
        let container = label(&event.container_name);
        let ghost identity = identity_of(event.deep_view());

        let labels: [&str; 4] = [node, namespace, pod, container];
        let node_only: [&str; 1] = [node];
        proof {
            assert(texts(labels@) =~= identity);
            assert(texts(node_only@) =~= seq![identity[0]]);
        }
        counter_inc(&mut self.oom_kills_total, labels.as_slice());
        counter_inc(&mut self.oom_kills_per_node_total, node_only.as_slice());

        let total_vm: [&str; 5] = [node, namespace, pod, container, "total_vm"];
        let anon_rss: [&str; 5] = [node, namespace, pod, container, "anon_rss"];
        let file_rss: [&str; 5] = [node, namespace, pod, container, "file_rss"];
        let shmem_rss: [&str; 5] = [node, namespace, pod, container, "shmem_rss"];
        proof {
            assert(texts(total_vm@) =~= identity.push("total_vm"@));
            assert(texts(anon_rss@) =~= identity.push("anon_rss"@));
            assert(texts(file_rss@) =~= identity.push("file_rss"@));
            assert(texts(shmem_rss@) =~= identity.push("shmem_rss"@));
        }
        gauge_set(
            &mut self.oom_memory_usage_bytes,
            total_vm.as_slice(),
            kib_to_bytes(event.raw_event.total_vm),
        );
        gauge_set(
            &mut self.oom_memory_usage_bytes,
            anon_rss.as_slice(),
            kib_to_bytes(event.raw_event.anon_rss),
        );
        gauge_set(
            &mut self.oom_memory_usage_bytes,
            file_rss.as_slice(),
            kib_to_bytes(event.raw_event.file_rss),
        );
        gauge_set(
            &mut self.oom_memory_usage_bytes,
            shmem_rss.as_slice(),
            kib_to_bytes(event.raw_event.shmem_rss),
        );

        gauge_set(&mut self.oom_last_timestamp, labels.as_slice(), event.timestamp);
    }

    /// The whole state as exposition text.
    pub fn get_metrics(&self) -> (text: String)
        ensures
            text@ == exposition_text(families(self@)),
    {
        proof {
            use_type_invariant(self);
        }
        match render(
            &self.oom_kills_total,
            &self.oom_kills_per_node_total,
            &self.oom_memory_usage_bytes,
            &self.oom_last_timestamp,
        ) {
            Ok(text) => text,
            Err(_) => String::new(),
        }
    }
}

/// Answers a request for the metrics: the state as exposition text, with
/// the content type of that format.
pub fn metrics_handler(collector: &MetricsCollector) -> (response: MetricsResponse)
    ensures
        response.content_type@ == CONTENT_TYPE@,
        response.body@ == exposition_text(families(collector@)),
{
    MetricsResponse {
        content_type: String::from_str(CONTENT_TYPE),
        body: collector.get_metrics(),
    }
}

/// The value of the series of `values`, zero where there is none.
pub open spec fn value_of(children: Children, values: Seq<Seq<char>>) -> u64 {
    if children.contains_key(label_key(values)) {
        children[label_key(values)].1
    } else {
        0
    }
}

/// One kill as the store takes it in.
pub struct Observation {
    pub identity: Seq<Seq<char>>,
    pub raw: OomKillEvent,
    pub timestamp: u64,
}

/// The state after a run of kills was recorded, the first one first.
pub open spec fn recorded_all(view: MetricsView, observations: Seq<Observation>) -> MetricsView
    decreases observations.len(),
{
    if observations.len() == 0 {
        view
    } else {
        let last = observations.last();
        recorded(
            recorded_all(view, observations.drop_last()),
            last.identity,
            last.raw,
            last.timestamp,
        )
    }
}

/// The four kinds of memory, in the order in which their gauges are set.
pub open spec fn memory_kinds() -> Seq<Seq<char>> {
    seq!["total_vm"@, "anon_rss"@, "file_rss"@, "shmem_rss"@]
}

/// The sizes of a record in kibibytes, in the order of `memory_kinds`.
pub open spec fn memory_sizes(raw: OomKillEvent) -> Seq<u64> {
    seq![raw.total_vm, raw.anon_rss, raw.file_rss, raw.shmem_rss]
}

/// The key of a workload's gauge for the kind of memory in place `kind`.
pub open spec fn memory_key(identity: Seq<Seq<char>>, kind: int) -> u64 {
    label_key(identity.push(memory_kinds()[kind]))
}

/// The keys of a workload's four memory gauges differ from one another.
pub open spec fn memory_keys_distinct(identity: Seq<Seq<char>>) -> bool {
    forall|i: int, j: int|
        0 <= i < j < 4 ==> memory_key(identity, i) != memory_key(identity, j)
}

/// The kind whose size the gauge of `kind` holds after a record: the last
/// one that is set under that gauge's key. It is `kind` itself unless a
/// kind set later shares the key.
pub open spec fn deciding_kind(identity: Seq<Seq<char>>, kind: int) -> int {
    let key = memory_key(identity, kind);
    if memory_key(identity, 3) == key {
        3
    } else if memory_key(identity, 2) == key {
        2
    } else if memory_key(identity, 1) == key {
        1
    } else {
        0
    }
}

/// Recording kills of one workload counts that workload's counter up by
/// their number, as long as 64 bits hold the count, and leaves the counter
/// of every workload with another key where it was.
pub proof fn lemma_kills_counted(
    view: MetricsView,
    observations: Seq<Observation>,
    identity: Seq<Seq<char>>,
    other: Seq<Seq<char>>,
)
    requires
        forall|i: int| 0 <= i < observations.len() ==> observations[i].identity == identity,
    ensures
        value_of(view.kills, identity) + observations.len() <= u64::MAX ==> value_of(
            recorded_all(view, observations).kills,
            identity,
        ) == value_of(view.kills, identity) + observations.len(),
        label_key(other) != label_key(identity) ==> value_of(
            recorded_all(view, observations).kills,
            other,
        ) == value_of(view.kills, other),
    decreases observations.len(),
{
    if observations.len() > 0 {
        let before = observations.drop_last();
        lemma_kills_counted(view, before, identity, other);
        assert(observations.last().identity == identity);
    }
}

/// Recording a kill touches the series of its own keys and no other: a
/// series under any other key holds what it held before.
pub proof fn lemma_other_series_untouched(
    view: MetricsView,
    identity: Seq<Seq<char>>,
    raw: OomKillEvent,
    timestamp: u64,
    other: Seq<Seq<char>>,
)
    ensures
        ({
            let end = recorded(view, identity, raw, timestamp);
            &&& label_key(other) != label_key(identity) ==> value_of(end.kills, other) == value_of(
                view.kills,
                other,
            ) && value_of(end.last_seen, other) == value_of(view.last_seen, other)
            &&& label_key(other) != label_key(seq![identity[0]]) ==> value_of(
                end.node_kills,
                other,
            ) == value_of(view.node_kills, other)
            &&& (forall|kind: int| 0 <= kind < 4 ==> label_key(other) != memory_key(identity, kind))
                ==> value_of(end.memory, other) == value_of(view.memory, other)
        }),
{
    assert(memory_kinds()[0] == "total_vm"@);
    assert(memory_kinds()[1] == "anon_rss"@);
    assert(memory_kinds()[2] == "file_rss"@);
    assert(memory_kinds()[3] == "shmem_rss"@);
    if forall|kind: int| 0 <= kind < 4 ==> label_key(other) != memory_key(identity, kind) {
        assert(label_key(other) != memory_key(identity, 0));
        assert(label_key(other) != memory_key(identity, 1));
        assert(label_key(other) != memory_key(identity, 2));
        assert(label_key(other) != memory_key(identity, 3));
    }
}

/// A gauge holds the latest observation, not a sum: whatever the store
/// held before, after a kill is recorded the workload's time of the last
/// kill is that of the kill, and each of its memory gauges holds the size,
/// in bytes, of the last kind of memory that was set under the gauge's key.
/// Where the four keys differ, that is the gauge's own kind.
pub proof fn lemma_gauges_hold_latest(
    view: MetricsView,
    identity: Seq<Seq<char>>,
    raw: OomKillEvent,
    timestamp: u64,
    kind: int,
)
    requires
        0 <= kind < 4,
    ensures
        value_of(recorded(view, identity, raw, timestamp).last_seen, identity) == timestamp,
        value_of(
            recorded(view, identity, raw, timestamp).memory,
            identity.push(memory_kinds()[kind]),
        ) == bytes_of(memory_sizes(raw)[deciding_kind(identity, kind)]),
        kind <= deciding_kind(identity, kind) < 4,
        memory_keys_distinct(identity) ==> deciding_kind(identity, kind) == kind,
        deciding_kind(identity, 3) == 3,
{
    assert(memory_kinds()[0] == "total_vm"@);
    assert(memory_kinds()[1] == "anon_rss"@);
    assert(memory_kinds()[2] == "file_rss"@);
    assert(memory_kinds()[3] == "shmem_rss"@);
}

/// Two kills of one workload: the gauges hold what the second one brought.
pub proof fn lemma_second_observation_wins(
    view: MetricsView,
    earlier: Observation,
    latest: Observation,
    kind: int,
)
    requires
        earlier.identity == latest.identity,
        0 <= kind < 4,
    ensures
        ({
            let id = latest.identity;
            let end = recorded_all(view, seq![earlier, latest]);
            &&& value_of(end.last_seen, id) == latest.timestamp
            &&& value_of(end.memory, id.push(memory_kinds()[kind])) == bytes_of(
                memory_sizes(latest.raw)[deciding_kind(id, kind)],
            )
        }),
{
    let both = seq![earlier, latest];
    assert(both.drop_last() =~= seq![earlier]);
    assert(seq![earlier].drop_last() =~= Seq::<Observation>::empty());
    reveal_with_fuel(recorded_all, 3);
    let middle = recorded(view, earlier.identity, earlier.raw, earlier.timestamp);
    assert(recorded_all(view, seq![earlier]) == middle);
    lemma_gauges_hold_latest(middle, latest.identity, latest.raw, latest.timestamp, kind);
}

} // verus!
