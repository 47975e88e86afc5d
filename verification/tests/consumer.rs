use oom_watcher::consumer::{enrich, on_cgroup, on_pods, on_record, Step, POLL_INTERVAL_MS};
use oom_watcher::event::{EnrichedOomEvent, OomKillEvent};
use oom_watcher::kubernetes::{ContainerStatus, KubernetesClient, LookupError, Pod};
use oom_watcher::metrics::MetricsCollector;

const HEX: &str = "0123456789abcdef0123456789abcdef0123456789abcdef0123456789abcdef";

fn stress() -> OomKillEvent {
    let mut comm = [0u8; 16];
    comm[..6].copy_from_slice(b"stress");
    OomKillEvent {
        pid: 4242,
        tgid: 4242,
        comm,
        total_vm: 204800,
        anon_rss: 102400,
        file_rss: 0,
        shmem_rss: 0,
        uid: 0,
        pgtables: 0,
        oom_score_adj: 0,
    }
}

fn store() -> MetricsCollector {
    match MetricsCollector::new() {
        Ok(store) => store,
        Err(e) => panic!("the store could not be built: {:?}", e),
    }
}

fn client() -> KubernetesClient {
    KubernetesClient::new(Some("worker-3".to_string()))
}

fn emitted(step: Step) -> EnrichedOomEvent {
    match step {
        Step::Emit(event) => event,
        other => panic!("an event was expected, not {:?}", other),
    }
}

fn no_identity(event: &EnrichedOomEvent) -> bool {
    event.namespace.is_none()
        && event.pod_name.is_none()
        && event.container_name.is_none()
        && event.container_id.is_none()
}

fn pods() -> Vec<Pod> {
    vec![Pod {
        namespace: Some("shop".to_string()),
        name: Some("cart-5d9".to_string()),
        node_name: Some("worker-3".to_string()),
        container_statuses: vec![ContainerStatus {
            name: "cart".to_string(),
            container_id: Some(format!("containerd://{}", HEX)),
        }],
    }]
}

/// The value of the sample of `name` with exactly these labels, whatever
/// their order in the line.
fn sample(text: &str, name: &str, labels: &[(&str, &str)]) -> Option<String> {
    let mut want: Vec<String> = labels.iter().map(|(k, v)| format!("{}=\"{}\"", k, v)).collect();
    want.sort();
    for line in text.lines() {
        let rest = match line.strip_prefix(name).and_then(|rest| rest.strip_prefix('{')) {
            Some(rest) => rest,
            None => continue,
        };
        let (inside, value) = match rest.split_once("} ") {
            Some(parts) => parts,
            None => continue,
        };
        let mut got: Vec<String> = inside.split(',').map(|s| s.to_string()).collect();
        got.sort();
        if got == want {
            return Some(value.to_string());
        }
    }
    None
}

#[test]
fn loop_rests_a_tenth_of_a_second() {
    assert_eq!(POLL_INTERVAL_MS, 100);
}

#[test]
fn short_buffer_is_dropped_and_nothing_is_recorded() {
    let mut store = store();
    let client = client();
    for len in [0usize, 1, 40, 79] {
        let step = on_record(&vec![0xabu8; len], 1700000000, Some(&client), &mut store);
        assert!(matches!(step, Step::Discard));
        let step = on_record(&vec![0xabu8; len], 1700000000, None, &mut store);
        assert!(matches!(step, Step::Discard));
    }
    assert_eq!(store.get_metrics(), "");
}

#[test]
fn longer_buffer_is_dropped_and_nothing_is_recorded() {
    let mut store = store();
    let client = client();
    let mut data = stress().to_bytes().to_vec();
    data.push(0);
    for extra in [0usize, 7, 80, 4016] {
        let mut long = data.clone();
        long.extend(std::iter::repeat(0u8).take(extra));
        let step = on_record(&long, 1700000000, Some(&client), &mut store);
        assert!(matches!(step, Step::Discard));
        let step = on_record(&long, 1700000000, None, &mut store);
        assert!(matches!(step, Step::Discard));
    }
    assert_eq!(store.get_metrics(), "");
}

#[test]
fn record_with_a_client_asks_for_the_cgroup_file() {
    let mut store = store();
    let client = client();
    match on_record(&stress().to_bytes(), 1700000000, Some(&client), &mut store) {
        Step::ReadCgroup { raw, timestamp, path } => {
            assert_eq!(raw, stress());
            assert_eq!(timestamp, 1700000000);
            assert_eq!(path, "/proc/4242/cgroup");
        }
        other => panic!("a read was expected, not {:?}", other),
    }
    assert_eq!(store.get_metrics(), "");
}

#[test]
fn record_without_a_client_is_recorded_without_any_identity() {
    let mut store = store();
    let event = emitted(on_record(&stress().to_bytes(), 1700000000, None, &mut store));
    assert_eq!(event.raw_event, stress());
    assert_eq!(event.timestamp, 1700000000);
    assert_eq!(event.node_name, None);
    assert!(no_identity(&event));
    let text = store.get_metrics();
    assert!(text.contains(
        "oom_kills_total{container=\"unknown\",namespace=\"unknown\",node=\"unknown\",pod=\"unknown\"} 1\n"
    ));
}

#[test]
fn unreadable_cgroup_ends_in_an_event_with_the_node_alone() {
    let mut store = store();
    let client = client();
    let (raw, timestamp) = match on_record(&stress().to_bytes(), 1700000000, Some(&client), &mut store) {
        Step::ReadCgroup { raw, timestamp, .. } => (raw, timestamp),
        other => panic!("a read was expected, not {:?}", other),
    };
    let event = emitted(on_cgroup(raw, timestamp, None, &client, &mut store));
    assert_eq!(event.raw_event.pid, 4242);
    assert_eq!(&event.raw_event.comm[..7], b"stress\0");
    assert_eq!(event.node_name.as_deref(), Some("worker-3"));
    assert!(no_identity(&event));
    assert_eq!(event.timestamp, 1700000000);

    let text = store.get_metrics();
    assert!(text.contains(
        "oom_kills_total{container=\"unknown\",namespace=\"unknown\",node=\"worker-3\",pod=\"unknown\"} 1\n"
    ));
    assert!(text.contains(
        "oom_memory_usage_bytes{container=\"unknown\",memory_type=\"anon_rss\",namespace=\"unknown\",node=\"worker-3\",pod=\"unknown\"} 104857600\n"
    ));
    assert!(text.contains("oom_kills_per_node_total{node=\"worker-3\"} 1\n"));

    let workload =
        [("node", "worker-3"), ("namespace", "unknown"), ("pod", "unknown"), ("container", "unknown")];
    assert_eq!(sample(&text, "oom_kills_total", &workload), Some("1".to_string()));
    let mut anon_rss = workload.to_vec();
    anon_rss.push(("memory_type", "anon_rss"));
    assert_eq!(sample(&text, "oom_memory_usage_bytes", &anon_rss), Some("104857600".to_string()));
    let mut total_vm = workload.to_vec();
    total_vm.push(("memory_type", "total_vm"));
    assert_eq!(sample(&text, "oom_memory_usage_bytes", &total_vm), Some("209715200".to_string()));
    assert_eq!(sample(&text, "oom_last_timestamp", &workload), Some("1700000000".to_string()));
}

#[test]
fn cgroup_without_a_container_ends_in_an_event_with_the_node_alone() {
    let mut store = store();
    let client = client();
    let event = emitted(on_cgroup(stress(), 5, Some("0::/system.slice/sshd.service\n"), &client, &mut store));
    assert_eq!(event.node_name.as_deref(), Some("worker-3"));
    assert!(no_identity(&event));
    assert!(store.get_metrics().contains("oom_kills_per_node_total{node=\"worker-3\"} 1\n"));
}

#[test]
fn cgroup_with_a_container_asks_for_the_pods() {
    let mut store = store();
    let client = client();
    let content = format!("0::/kubepods/burstable/pod9/{}\n", HEX);
    match on_cgroup(stress(), 5, Some(&content), &client, &mut store) {
        Step::ListPods { raw, timestamp, container_id } => {
            assert_eq!(raw, stress());
            assert_eq!(timestamp, 5);
            assert_eq!(container_id, HEX);
        }
        other => panic!("a listing was expected, not {:?}", other),
    }
    assert_eq!(store.get_metrics(), "");
}

#[test]
fn pods_that_name_the_container_fill_the_event() {
    let mut store = store();
    let client = client();
    let event = on_pods(stress(), 5, HEX.to_string(), Ok(pods()), &client, &mut store);
    assert_eq!(event.node_name.as_deref(), Some("worker-3"));
    assert_eq!(event.namespace.as_deref(), Some("shop"));
    assert_eq!(event.pod_name.as_deref(), Some("cart-5d9"));
    assert_eq!(event.container_name.as_deref(), Some("cart"));
    assert_eq!(event.container_id.as_deref(), Some(HEX));
    assert!(store.get_metrics().contains(
        "oom_kills_total{container=\"cart\",namespace=\"shop\",node=\"worker-3\",pod=\"cart-5d9\"} 1\n"
    ));
}

#[test]
fn cluster_failure_keeps_the_node_and_the_loop_goes_on() {
    let mut store = store();
    let client = client();
    let event = on_pods(stress(), 5, HEX.to_string(), Err("connection reset".to_string()), &client, &mut store);
    assert_eq!(event.node_name.as_deref(), Some("worker-3"));
    assert!(no_identity(&event));

    // the next record is handled as if nothing had happened
    let next = on_pods(stress(), 6, HEX.to_string(), Ok(pods()), &client, &mut store);
    assert_eq!(next.pod_name.as_deref(), Some("cart-5d9"));
    let text = store.get_metrics();
    assert!(text.contains("oom_kills_per_node_total{node=\"worker-3\"} 2\n"));
    assert!(text.contains(
        "oom_kills_total{container=\"unknown\",namespace=\"unknown\",node=\"worker-3\",pod=\"unknown\"} 1\n"
    ));
}

#[test]
fn pods_that_do_not_name_the_container_leave_the_identity_out() {
    let mut store = store();
    let client = client();
    let other: String = std::iter::repeat('f').take(64).collect();
    let event = on_pods(stress(), 5, other, Ok(pods()), &client, &mut store);
    assert_eq!(event.node_name.as_deref(), Some("worker-3"));
    assert!(no_identity(&event));
}

#[test]
fn enrich_fills_in_what_the_lookup_found() {
    let info = ("ns".to_string(), "pod".to_string(), "c".to_string(), "id".to_string());
    let event = enrich(stress(), 9, Some("n".to_string()), Ok(Some(info)));
    assert_eq!(event.namespace.as_deref(), Some("ns"));
    assert_eq!(event.pod_name.as_deref(), Some("pod"));
    assert_eq!(event.container_name.as_deref(), Some("c"));
    assert_eq!(event.container_id.as_deref(), Some("id"));
    assert_eq!(event.node_name.as_deref(), Some("n"));
    assert_eq!(event.timestamp, 9);
    assert_eq!(event.raw_event, stress());
}

#[test]
fn enrich_leaves_out_what_the_lookup_did_not_find() {
    let none = enrich(stress(), 9, Some("n".to_string()), Ok(None));
    assert!(no_identity(&none));
    assert_eq!(none.node_name.as_deref(), Some("n"));
    let failed = enrich(stress(), 9, Some("n".to_string()), Err(LookupError::Cluster("x".to_string())));
    assert!(no_identity(&failed));
    assert_eq!(failed.node_name.as_deref(), Some("n"));
    let pattern = enrich(stress(), 9, None, Err(LookupError::Pattern));
    assert!(no_identity(&pattern));
    assert_eq!(pattern.node_name, None);
}
