//! From a container id to the pod that runs the container.
//!
//! The cluster is asked for its pods by the caller; what it answered comes
//! in as plain values. From there on everything is decided here: which pods
//! count, which container status names the id, and what is reported.

use crate::cgroup::{container_id_of, extract_container_id};
use vstd::prelude::*;
use vstd::string::StringExecFns;

verus! {

/// What the cluster reports of one container of a pod.
#[derive(Clone, Debug)]
pub struct ContainerStatus {
    pub name: String,
    /// The id as the runtime gives it: `<runtime>://<id>`.
    pub container_id: Option<String>,
}

/// What the cluster reports of one pod, as far as the lookup reads it.
#[derive(Clone, Debug)]
pub struct Pod {
    pub namespace: Option<String>,
    pub name: Option<String>,
    /// The node that the pod is assigned to, if it is assigned.
    pub node_name: Option<String>,
    pub container_statuses: Vec<ContainerStatus>,
}

/// A container status with its texts as sequences of characters.
pub struct ContainerStatusView {
    pub name: Seq<char>,
    pub container_id: Option<Seq<char>>,
}

/// A pod with its texts as sequences of characters.
pub struct PodView {
    pub namespace: Option<Seq<char>>,
    pub name: Option<Seq<char>>,
    pub node_name: Option<Seq<char>>,
    pub container_statuses: Seq<ContainerStatusView>,
}

impl DeepView for ContainerStatus {
    type V = ContainerStatusView;

    open spec fn deep_view(&self) -> ContainerStatusView {
        ContainerStatusView { name: self.name@, container_id: self.container_id.deep_view() }
    }
}

impl DeepView for Pod {
    type V = PodView;

    open spec fn deep_view(&self) -> PodView {
        PodView {
            namespace: self.namespace.deep_view(),
            name: self.name.deep_view(),
            node_name: self.node_name.deep_view(),
            container_statuses: self.container_statuses.deep_view(),
        }
    }
}

/// Why a lookup failed.
#[derive(Clone, Debug)]
pub enum LookupError {
    /// A cgroup pattern could not be compiled.
    Pattern,
    /// The cluster could not list its pods; the text is its message.
    Cluster(String),
}

/// A lookup error with its message as a sequence of characters.
pub enum LookupErrorView {
    Pattern,
    Cluster(Seq<char>),
}

impl DeepView for LookupError {
    type V = LookupErrorView;

    open spec fn deep_view(&self) -> LookupErrorView {
        match self {
            LookupError::Pattern => LookupErrorView::Pattern,
            LookupError::Cluster(message) => LookupErrorView::Cluster(message@),
        }
    }
}

/// Namespace, pod name and container name.
pub type PodInfo = (Seq<char>, Seq<char>, Seq<char>);

/// Namespace, pod name, container name and container id.
pub type ContainerInfo = (Seq<char>, Seq<char>, Seq<char>, Seq<char>);

/// `text` ends with `tail`.
pub open spec fn has_suffix(text: Seq<char>, tail: Seq<char>) -> bool {
    tail.len() <= text.len() && text.subrange(text.len() - tail.len(), text.len() as int) == tail
}

/// `part` occurs somewhere in `text`.
pub open spec fn has_infix(text: Seq<char>, part: Seq<char>) -> bool {
    exists|i: int| 0 <= i <= text.len() - part.len() && #[trigger] text.subrange(i, i + part.len()) == part
}

/// `str::ends_with` of std with a string as the pattern. Trusted: true
/// exactly where `tail` is a suffix of `text`.
#[verifier::external_body]
fn ends_with(text: &str, tail: &str) -> (b: bool)
    ensures
        b == has_suffix(text@, tail@),
{
    text.ends_with(tail)
}

/// `str::contains` of std with a string as the pattern. Trusted: true
/// exactly where `part` equals some sub-slice of `text`.
#[verifier::external_body]
fn contains(text: &str, part: &str) -> (b: bool)
    ensures
        b == has_infix(text@, part@),
{
    text.contains(part)
}

/// The id that the runtime reported names the container `id`: it equals the
/// id, ends with it, or holds it somewhere. Runtimes prefix and cut ids in
/// more than one way.
pub open spec fn id_matches(reported: Seq<char>, id: Seq<char>) -> bool {
    reported == id || has_suffix(reported, id) || has_infix(reported, id)
}

/// All three forms of a match are an occurrence of `id` in `reported`.
pub proof fn lemma_id_matches(reported: Seq<char>, id: Seq<char>)
    ensures
        reported == id ==> id_matches(reported, id),
        has_suffix(reported, id) ==> id_matches(reported, id),
        has_infix(reported, id) ==> id_matches(reported, id),
        id_matches(reported, id) == has_infix(reported, id),
{
    if reported == id {
        assert(reported.subrange(0int, 0int + id.len()) =~= id);
    }
    if has_suffix(reported, id) {
        let i = reported.len() - id.len();
        assert(reported.subrange(i, i + id.len()) == id);
    }
}

/// Whether the id that the runtime reported names the container `id`.
pub fn container_id_matches(reported: &str, id: &str) -> (b: bool)
    ensures
        b == id_matches(reported@, id@),
{
    proof {
        lemma_id_matches(reported@, id@);
    }
    ends_with(reported, id) || contains(reported, id)
}

/// The status names the container `id`.
pub open spec fn status_matches(status: ContainerStatusView, id: Seq<char>) -> bool {
    status.container_id matches Some(reported) && id_matches(reported, id)
}

/// The place of the first status at or after `from` that names `id`.
pub open spec fn first_status(statuses: Seq<ContainerStatusView>, id: Seq<char>, from: int)
    -> Option<int>
    decreases statuses.len() - from,
{
    if from < 0 || from >= statuses.len() {
        None
    } else if status_matches(statuses[from], id) {
        Some(from)
    } else {
        first_status(statuses, id, from + 1)
    }
}

/// The pod counts for an agent on `node`: it is assigned to that node, or to
/// none yet.
pub open spec fn on_node(pod: PodView, node: Seq<char>) -> bool {
    pod.node_name matches Some(assigned) ==> assigned == node
}

/// The namespace that is reported for a pod.
pub open spec fn namespace_of(pod: PodView) -> Seq<char> {
    match pod.namespace {
        Some(namespace) => namespace,
        None => "default"@,
    }
}

/// The name that is reported for a pod.
pub open spec fn name_of(pod: PodView) -> Seq<char> {
    match pod.name {
        Some(name) => name,
        None => "unknown"@,
    }
}

/// What one pod says of the container `id`, for an agent on `node`.
pub open spec fn pod_says(pod: PodView, id: Seq<char>, node: Seq<char>) -> Option<PodInfo> {
    if on_node(pod, node) {
        match first_status(pod.container_statuses, id, 0) {
            Some(s) => Some((namespace_of(pod), name_of(pod), pod.container_statuses[s].name)),
            None => None,
        }
    } else {
        None
    }
}

/// What the first pod at or after `from` that says anything says.
pub open spec fn find_pod(pods: Seq<PodView>, id: Seq<char>, node: Seq<char>, from: int) -> Option<
    PodInfo,
>
    decreases pods.len() - from,
{
    if from < 0 || from >= pods.len() {
        None
    } else {
        match pod_says(pods[from], id, node) {
            Some(info) => Some(info),
            None => find_pod(pods, id, node, from + 1),
        }
    }
}

/// The outcome of the second step: a listing that failed is the failure,
/// one that succeeded is searched.
pub open spec fn pod_info_of(
    node: Seq<char>,
    id: Seq<char>,
    listing: Result<Seq<PodView>, Seq<char>>,
) -> Result<Option<PodInfo>, LookupErrorView> {
    match listing {
        Ok(pods) => Ok(find_pod(pods, id, node, 0)),
        Err(message) => Err(LookupErrorView::Cluster(message)),
    }
}

/// The outcome of the first step. A file that could not be read names no
/// container.
pub open spec fn container_id_from(cgroup: Option<Seq<char>>) -> Result<
    Option<Seq<char>>,
    LookupErrorView,
> {
    match cgroup {
        None => Ok(None),
        Some(content) => match container_id_of(content) {
            Ok(found) => Ok(found),
            Err(_) => Err(LookupErrorView::Pattern),
        },
    }
}

/// The outcome of a whole lookup. The listing is read only where the first
/// step found an id.
pub open spec fn container_info_of(
    node: Seq<char>,
    cgroup: Option<Seq<char>>,
    listing: Result<Seq<PodView>, Seq<char>>,
) -> Result<Option<ContainerInfo>, LookupErrorView> {
    match container_id_from(cgroup) {
        Err(e) => Err(e),
        Ok(None) => Ok(None),
        Ok(Some(id)) => match pod_info_of(node, id, listing) {
            Err(e) => Err(e),
            Ok(None) => Ok(None),
            Ok(Some(info)) => Ok(Some((info.0, info.1, info.2, id))),
        },
    }
}

/// The view of what the cluster answered.
pub open spec fn listing_view(listing: Result<Vec<Pod>, String>) -> Result<
    Seq<PodView>,
    Seq<char>,
> {
    match listing {
        Ok(pods) => Ok(pods.deep_view()),
        Err(message) => Err(message@),
    }
}

/// The view of a result whose parts are strings.
pub open spec fn outcome_view<T: DeepView>(r: Result<Option<T>, LookupError>) -> Result<
    Option<T::V>,
    LookupErrorView,
> {
    match r {
        Ok(found) => Ok(found.deep_view()),
        Err(e) => Err(e.deep_view()),
    }
}

/// The place of the first status that names the container `id`.
pub fn find_status(statuses: &Vec<ContainerStatus>, id: &str) -> (r: Option<usize>)
    ensures
        match r {
            Some(s) => first_status(statuses.deep_view(), id@, 0) == Some(s as int) && s
                < statuses.len(),
            None => first_status(statuses.deep_view(), id@, 0) is None,
        },
{
    let ghost views = statuses.deep_view();
    let mut s: usize = 0;
    while s < statuses.len()
        invariant
            s <= statuses.len(),
            views == statuses.deep_view(),
            first_status(views, id@, 0) == first_status(views, id@, s as int),
        decreases statuses.len() - s,
    {
        let status = &statuses[s];
        proof {
            assert(views[s as int] == status.deep_view());
        }
        let names = match &status.container_id {
            Some(reported) => container_id_matches(reported.as_str(), id),
            None => false,
        };
        if names {
            return Some(s);
        }
        s = s + 1;
    }
    None
}

/// The agent's side of the cluster: the node it runs on.
#[derive(Clone, Debug)]
pub struct KubernetesClient {
    node_name: String,
}

impl View for KubernetesClient {
    type V = Seq<char>;

    /// The name of the agent's node.
    closed spec fn view(&self) -> Seq<char> {
        self.node_name@
    }
}

impl KubernetesClient {
    /// A client for the node named by `node_name`; without a name the node
    /// is "unknown".
    pub fn new(node_name: Option<String>) -> (client: KubernetesClient)
        ensures
            client@ == match node_name {
                Some(name) => name@,
                None => "unknown"@,
            },
    {
        match node_name {
            Some(name) => KubernetesClient { node_name: name },
            None => KubernetesClient { node_name: String::from_str("unknown") },
        }
    }

    /// The name of the agent's node.
    pub fn node_name(&self) -> (name: &str)
        ensures
            name@ == self@,
    {
        self.node_name.as_str()
    }

    /// First step of a lookup: the container id that the cgroup membership
    /// of a process names. `cgroup` is the content of the membership file,
    /// `None` where it could not be read.
    pub fn get_container_id_from_pid(&self, cgroup: Option<&str>) -> (r: Result<
        Option<String>,
        LookupError,
    >)
        ensures
            outcome_view(r) == container_id_from(cgroup.deep_view()),
    {
        match cgroup {
            None => Ok(None),
            Some(content) => match extract_container_id(content) {
                Ok(found) => Ok(found),
                Err(_) => Err(LookupError::Pattern),
            },
        }
    }

    /// Second step of a lookup: the pod and container that `container_id`
    /// belongs to. `listing` is what the cluster answered when asked for its
    /// pods. Pods of other nodes do not count; among the others the first
    /// status that names the id decides.
    pub fn get_pod_info_from_container_id(
        &self,
        container_id: &str,
        listing: Result<Vec<Pod>, String>,
    ) -> (r: Result<Option<(String, String, String)>, LookupError>)
        ensures
            outcome_view(r) == pod_info_of(self@, container_id@, listing_view(listing)),
    {
        let pods = match listing {
            Ok(pods) => pods,
            Err(message) => {
                return Err(LookupError::Cluster(message));
            },
        };
        let ghost all = pods.deep_view();
        let mut p: usize = 0;
        while p < pods.len()
            invariant
                p <= pods.len(),
                all == pods.deep_view(),
                listing_view(listing) == Ok::<Seq<PodView>, Seq<char>>(all),
                find_pod(all, container_id@, self@, 0) == find_pod(all, container_id@, self@, p as int),
            decreases pods.len() - p,
        {
            let pod = &pods[p];
            proof {
                assert(all[p as int] == pod.deep_view());
            }
            let counts = match &pod.node_name {
                Some(assigned) => *assigned == self.node_name,
                None => true,
            };
            proof {
                assert(counts == on_node(all[p as int], self@));
                assert(all[p as int].container_statuses == pod.container_statuses.deep_view());
            }
            if counts {
                match find_status(&pod.container_statuses, container_id) {
                    Some(s) => {
                        let status = &pod.container_statuses[s];
                        proof {
                            assert(all[p as int].container_statuses[s as int]
                                == status.deep_view());
                        }
                        let namespace = match &pod.namespace {
                            Some(namespace) => namespace.clone(),
                            None => String::from_str("default"),
                        };
                        let pod_name = match &pod.name {
                            Some(name) => name.clone(),
                            None => String::from_str("unknown"),
                        };
                        return Ok(Some((namespace, pod_name, status.name.clone())));
                    },
                    None => {},
                }
            }
            proof {
                assert(pod_says(all[p as int], container_id@, self@) is None);
            }
            p = p + 1;
        }
        Ok(None)
    }

    /// Resolves a killed process to its workload: namespace, pod name,
    /// container name and container id. `cgroup` is the content of the
    /// process's cgroup membership file, `None` where it could not be read;
    /// `listing` is what the cluster answered when asked for its pods. A
    /// process that cannot be mapped has no identity, which is no error; an
    /// error is a failure of the cluster or of a pattern.
    pub fn get_container_info(&self, cgroup: Option<&str>, listing: Result<Vec<Pod>, String>) -> (r:
        Result<Option<(String, String, String, String)>, LookupError>)
        ensures
            outcome_view(r) == container_info_of(self@, cgroup.deep_view(), listing_view(listing)),
    {
        let container_id = match self.get_container_id_from_pid(cgroup) {
            Ok(Some(id)) => id,
            Ok(None) => {
                return Ok(None);
            },
            Err(e) => {
                return Err(e);
            },
        };
        match self.get_pod_info_from_container_id(container_id.as_str(), listing) {
            Ok(Some((namespace, pod_name, container_name))) => Ok(
                Some((namespace, pod_name, container_name, container_id)),
            ),
            Ok(None) => Ok(None),
            Err(e) => Err(e),
        }
    }
}

/// A pod that is assigned to another node says nothing, whatever its
/// container statuses hold.
pub proof fn lemma_other_node_says_nothing(pod: PodView, id: Seq<char>, node: Seq<char>)
    requires
        pod.node_name matches Some(assigned) && assigned != node,
    ensures
        pod_says(pod, id, node) is None,
{
}

/// What a search finds is what a pod of the agent's node says (or one that
/// is assigned to no node), and it finds nothing only where no such pod says
/// anything.
pub proof fn lemma_found_on_node(pods: Seq<PodView>, id: Seq<char>, node: Seq<char>, from: int)
    requires
        0 <= from,
    ensures
        match find_pod(pods, id, node, from) {
            Some(info) => exists|p: int|
                from <= p < pods.len() && on_node(pods[p], node) && #[trigger] pod_says(
                    pods[p],
                    id,
                    node,
                ) == Some(info),
            None => forall|p: int|
                from <= p < pods.len() ==> #[trigger] pod_says(pods[p], id, node) is None,
        },
    decreases pods.len() - from,
{
    if from < pods.len() {
        if pod_says(pods[from], id, node) is None {
            lemma_found_on_node(pods, id, node, from + 1);
        }
    }
}

proof fn lemma_find_pod_after_removed(
    pods: Seq<PodView>,
    id: Seq<char>,
    node: Seq<char>,
    k: int,
    from: int,
)
    requires
        0 <= k <= from,
        k < pods.len(),
    ensures
        find_pod(pods.remove(k), id, node, from) == find_pod(pods, id, node, from + 1),
    decreases pods.len() - from,
{
    if from + 1 < pods.len() {
        assert(pods.remove(k)[from] == pods[from + 1]);
        lemma_find_pod_after_removed(pods, id, node, k, from + 1);
    }
}

/// Taking a pod of another node out of the listing changes nothing, even if
/// one of its containers carries the id.
pub proof fn lemma_other_node_is_ignored(
    pods: Seq<PodView>,
    id: Seq<char>,
    node: Seq<char>,
    k: int,
    from: int,
)
    requires
        0 <= from <= k < pods.len(),
        !on_node(pods[k], node),
    ensures
        find_pod(pods.remove(k), id, node, from) == find_pod(pods, id, node, from),
    decreases k - from,
{
    if from == k {
        lemma_find_pod_after_removed(pods, id, node, k, from);
    } else {
        assert(pods.remove(k)[from] == pods[from]);
        lemma_other_node_is_ignored(pods, id, node, k, from + 1);
    }
}

} // verus!
