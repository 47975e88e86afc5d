//! The consumer's decisions for one buffer taken from the event channel.
//!
//! The loop itself waits, reads files and asks the cluster; between those
//! it comes here with what it got and is told what to do next. A buffer
//! goes through at most three steps: the record is decoded, the cgroup
//! membership of the killed process is examined, and the pods are searched.
//! Whatever fails on the way, the kill is recorded with what is known.

use crate::cgroup::{cgroup_path, cgroup_path_of};
use crate::event::{
    decodes_to, EnrichedOomEvent, EnrichedOomEventView, OomKillEvent, RECORD_SIZE,
};
use crate::kubernetes::{
    container_id_from, container_info_of, listing_view, pod_info_of, ContainerInfo,
    KubernetesClient, LookupError, LookupErrorView, Pod, PodView,
};
use crate::metrics::{identity_of, recorded, MetricsCollector, MetricsView};
use vstd::prelude::*;

verus! {

/// How long the loop rests when the channel is empty, in milliseconds.
pub const POLL_INTERVAL_MS: u64 = 100;

/// What the loop is to do next with a buffer.
#[derive(Clone, Debug)]
pub enum Step {
    /// The buffer is not of the size of a record; it is dropped.
    Discard,
    /// The kill has been recorded; this is the event to report.
    Emit(EnrichedOomEvent),
    /// Read the cgroup membership file at `path` and come back with its
    /// content.
    ReadCgroup { raw: OomKillEvent, timestamp: u64, path: String },
    /// Ask the cluster for its pods and come back with the answer.
    ListPods { raw: OomKillEvent, timestamp: u64, container_id: String },
}

/// A step with its texts as sequences of characters.
pub enum StepView {
    Discard,
    Emit(EnrichedOomEventView),
    ReadCgroup { raw: OomKillEvent, timestamp: u64, path: Seq<char> },
    ListPods { raw: OomKillEvent, timestamp: u64, container_id: Seq<char> },
}

impl DeepView for Step {
    type V = StepView;

    open spec fn deep_view(&self) -> StepView {
        match self {
            Step::Discard => StepView::Discard,
            Step::Emit(event) => StepView::Emit(event.deep_view()),
            Step::ReadCgroup { raw, timestamp, path } => StepView::ReadCgroup {
                raw: *raw,
                timestamp: *timestamp,
                path: path@,
            },
            Step::ListPods { raw, timestamp, container_id } => StepView::ListPods {
                raw: *raw,
                timestamp: *timestamp,
                container_id: container_id@,
            },
        }
    }
}

/// The event for a kill on `node` whose lookup ended in `lookup`: the node
/// is kept as it is known; the workload is filled in where the lookup found
/// one, and left out where it found none or failed.
pub open spec fn enriched(
    raw: OomKillEvent,
    timestamp: u64,
    node: Option<Seq<char>>,
    lookup: Result<Option<ContainerInfo>, LookupErrorView>,
) -> EnrichedOomEventView {
    match lookup {
        Ok(Some(info)) => EnrichedOomEventView {
            raw_event: raw,
            node_name: node,
            namespace: Some(info.0),
            pod_name: Some(info.1),
            container_name: Some(info.2),
            container_id: Some(info.3),
            timestamp,
        },
        _ => EnrichedOomEventView {
            raw_event: raw,
            node_name: node,
            namespace: None,
            pod_name: None,
            container_name: None,
            container_id: None,
            timestamp,
        },
    }
}

/// The view of the outcome of a lookup.
pub open spec fn lookup_view(
    lookup: Result<Option<(String, String, String, String)>, LookupError>,
) -> Result<Option<ContainerInfo>, LookupErrorView> {
    match lookup {
        Ok(found) => Ok(found.deep_view()),
        Err(e) => Err(e.deep_view()),
    }
}

/// The node of an agent with or without a client.
pub open spec fn node_of(client: Option<&KubernetesClient>) -> Option<Seq<char>> {
    match client {
        Some(c) => Some(c@),
        None => None,
    }
}

/// Builds the event for a kill from what the lookup gave. A lookup that
/// failed or found nothing leaves the workload out and keeps the node.
pub fn enrich(
    raw: OomKillEvent,
    timestamp: u64,
    node_name: Option<String>,
    lookup: Result<Option<(String, String, String, String)>, LookupError>,
) -> (event: EnrichedOomEvent)
    ensures
        event.deep_view() == enriched(raw, timestamp, node_name.deep_view(), lookup_view(lookup)),
{
    match lookup {
        Ok(Some((namespace, pod_name, container_name, container_id))) => EnrichedOomEvent {
            raw_event: raw,
            node_name,
            namespace: Some(namespace),
            pod_name: Some(pod_name),
            container_name: Some(container_name),
            container_id: Some(container_id),
            timestamp,
        },
        _ => EnrichedOomEvent {
            raw_event: raw,
            node_name,
            namespace: None,
            pod_name: None,
            container_name: None,
            container_id: None,
            timestamp,
        },
    }
}

/// The state of the store after `event` was recorded.
pub open spec fn after(view: MetricsView, event: EnrichedOomEventView) -> MetricsView {
    recorded(view, identity_of(event), event.raw_event, event.timestamp)
}

/// The node's name for an event, where the agent has a client.
fn node_name_of(client: Option<&KubernetesClient>) -> (name: Option<String>)
    ensures
        name.deep_view() == node_of(client),
{
    match client {
        Some(c) => Some(c.node_name().to_owned()),
        None => None,
    }
}

/// Records the kill with the outcome of its lookup and hands the event out.
fn conclude(
    raw: OomKillEvent,
    timestamp: u64,
    client: Option<&KubernetesClient>,
    lookup: Result<Option<(String, String, String, String)>, LookupError>,
    store: &mut MetricsCollector,
) -> (event: EnrichedOomEvent)
    ensures
        event.deep_view() == enriched(raw, timestamp, node_of(client), lookup_view(lookup)),
        final(store)@ == after(old(store)@, event.deep_view()),
{
    let event = enrich(raw, timestamp, node_name_of(client), lookup);
    store.record_oom_event(&event);
    event
}

/// First step: a buffer has come from the channel at time `now`. One whose
/// length is not that of a record, shorter or longer, is dropped: nothing
/// is recorded and no lookup is started. Without a client the kill is
/// recorded at once, with no identity at all. With a client the lookup
/// starts with the cgroup membership of the killed process.
pub fn on_record(
    data: &[u8],
    now: u64,
    client: Option<&KubernetesClient>,
    store: &mut MetricsCollector,
) -> (step: Step)
    ensures
        data.len() != RECORD_SIZE ==> step.deep_view() == StepView::Discard && final(store)@ == old(
            store,
        )@,
        data.len() == RECORD_SIZE ==> exists|raw: OomKillEvent| #[trigger]
            decodes_to(data@, raw) && match client {
                None => step.deep_view() == StepView::Emit(
                    enriched(raw, now, None, Ok(None)),
                ) && final(store)@ == after(old(store)@, enriched(raw, now, None, Ok(None))),
                Some(_) => step.deep_view() == (StepView::ReadCgroup {
                    raw,
                    timestamp: now,
                    path: cgroup_path_of(raw.pid as nat),
                }) && final(store)@ == old(store)@,
            },
{
    let raw = match OomKillEvent::from_bytes(data) {
        Some(raw) => raw,
        None => {
            return Step::Discard;
        },
    };
    match client {
        None => Step::Emit(conclude(raw, now, None, Ok(None), store)),
        Some(_) => Step::ReadCgroup { raw, timestamp: now, path: cgroup_path(raw.pid) },
    }
}

/// Second step: the cgroup membership file was read (`None`: it could not
/// be read). Where it names a container, the pods are asked for next. Where
/// it names none, or a pattern fails, the kill is recorded with the node
/// alone.
pub fn on_cgroup(
    raw: OomKillEvent,
    timestamp: u64,
    cgroup: Option<&str>,
    client: &KubernetesClient,
    store: &mut MetricsCollector,
) -> (step: Step)
    ensures
        match container_id_from(cgroup.deep_view()) {
            Ok(Some(id)) => step.deep_view() == (StepView::ListPods {
                raw,
                timestamp,
                container_id: id,
            }) && final(store)@ == old(store)@,
            Ok(None) => step.deep_view() == StepView::Emit(
                enriched(raw, timestamp, Some(client@), Ok(None)),
            ) && final(store)@ == after(
                old(store)@,
                enriched(raw, timestamp, Some(client@), Ok(None)),
            ),
            Err(e) => step.deep_view() == StepView::Emit(
                enriched(raw, timestamp, Some(client@), Err(e)),
            ) && final(store)@ == after(
                old(store)@,
                enriched(raw, timestamp, Some(client@), Err(e)),
            ),
        },
{
    match client.get_container_id_from_pid(cgroup) {
        Ok(Some(container_id)) => Step::ListPods { raw, timestamp, container_id },
        Ok(None) => Step::Emit(conclude(raw, timestamp, Some(client), Ok(None), store)),
        Err(e) => Step::Emit(conclude(raw, timestamp, Some(client), Err(e), store)),
    }
}

/// The outcome of a lookup that got as far as the pods.
pub open spec fn lookup_with_pods(
    node: Seq<char>,
    container_id: Seq<char>,
    listing: Result<Seq<PodView>, Seq<char>>,
) -> Result<Option<ContainerInfo>, LookupErrorView> {
    match pod_info_of(node, container_id, listing) {
        Ok(Some(info)) => Ok(Some((info.0, info.1, info.2, container_id))),
        Ok(None) => Ok(None),
        Err(e) => Err(e),
    }
}

/// Third step: the cluster has answered. The kill is recorded with the
/// workload that the pods name for the container; where they name none, or
/// the cluster failed, with the node alone.
pub fn on_pods(
    raw: OomKillEvent,
    timestamp: u64,
    container_id: String,
    listing: Result<Vec<Pod>, String>,
    client: &KubernetesClient,
    store: &mut MetricsCollector,
) -> (event: EnrichedOomEvent)
    ensures
        event.deep_view() == enriched(
            raw,
            timestamp,
            Some(client@),
            lookup_with_pods(client@, container_id@, listing_view(listing)),
        ),
        final(store)@ == after(old(store)@, event.deep_view()),
{
    let lookup = match client.get_pod_info_from_container_id(container_id.as_str(), listing) {
        Ok(Some((namespace, pod_name, container_name))) => Ok(
            Some((namespace, pod_name, container_name, container_id)),
        ),
        Ok(None) => Ok(None),
        Err(e) => Err(e),
    };
    conclude(raw, timestamp, Some(client), lookup, store)
}

/// The steps together are one lookup: whichever way a record goes through
/// them with a client, the event that comes out is the one for the outcome
/// of the whole lookup on the same cgroup content and the same answer of
/// the cluster.
pub proof fn lemma_steps_are_one_lookup(
    raw: OomKillEvent,
    timestamp: u64,
    node: Seq<char>,
    cgroup: Option<Seq<char>>,
    listing: Result<Seq<PodView>, Seq<char>>,
)
    ensures
        match container_id_from(cgroup) {
            Ok(Some(id)) => enriched(
                raw,
                timestamp,
                Some(node),
                lookup_with_pods(node, id, listing),
            ) == enriched(raw, timestamp, Some(node), container_info_of(node, cgroup, listing)),
            Ok(None) => enriched(raw, timestamp, Some(node), Ok(None)) == enriched(
                raw,
                timestamp,
                Some(node),
                container_info_of(node, cgroup, listing),
            ),
            Err(e) => enriched(raw, timestamp, Some(node), Err(e)) == enriched(
                raw,
                timestamp,
                Some(node),
                container_info_of(node, cgroup, listing),
            ),
        },
{
}

/// A lookup that fails leaves the node in the event and the workload out.
pub proof fn lemma_failed_lookup_keeps_node(
    raw: OomKillEvent,
    timestamp: u64,
    node: Option<Seq<char>>,
    error: LookupErrorView,
)
    ensures
        enriched(raw, timestamp, node, Err(error)).node_name == node,
        enriched(raw, timestamp, node, Err(error)).namespace is None,
        enriched(raw, timestamp, node, Err(error)).pod_name is None,
        enriched(raw, timestamp, node, Err(error)).container_name is None,
        enriched(raw, timestamp, node, Err(error)).container_id is None,
{
}

} // verus!
