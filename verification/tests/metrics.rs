use oom_watcher::event::{EnrichedOomEvent, OomKillEvent};
use oom_watcher::metrics::{metrics_handler, MetricsCollector, CONTENT_TYPE};

fn raw(total_vm: u64, anon_rss: u64, file_rss: u64, shmem_rss: u64) -> OomKillEvent {
    OomKillEvent {
        pid: 1,
        tgid: 1,
        comm: [0; 16],
        total_vm,
        anon_rss,
        file_rss,
        shmem_rss,
        uid: 0,
        pgtables: 0,
        oom_score_adj: 0,
    }
}

fn event(identity: [Option<&str>; 4], raw_event: OomKillEvent, timestamp: u64) -> EnrichedOomEvent {
    EnrichedOomEvent {
        raw_event,
        node_name: identity[0].map(|s| s.to_string()),
        namespace: identity[1].map(|s| s.to_string()),
        pod_name: identity[2].map(|s| s.to_string()),
        container_name: identity[3].map(|s| s.to_string()),
        container_id: None,
        timestamp,
    }
}

fn store() -> MetricsCollector {
    match MetricsCollector::new() {
        Ok(store) => store,
        Err(e) => panic!("the store could not be built: {:?}", e),
    }
}

/// The value of the sample of `name` with exactly these labels, whatever
/// their order in the line.
fn sample(text: &str, name: &str, labels: &[(&str, &str)]) -> Option<String> {
    let mut want: Vec<String> = labels.iter().map(|(k, v)| format!("{}=\"{}\"", k, v)).collect();
    want.sort();
    for line in text.lines() {
        let rest = match line.strip_prefix(name) {
            Some(rest) => rest,
            None => continue,
        };
        let rest = match rest.strip_prefix('{') {
            Some(rest) => rest,
            None => continue,
        };
        let (inside, value) = match rest.split_once("} ") {
            Some(parts) => parts,
            None => continue,
        };
        let mut got: Vec<String> = inside.split(',').map(|s| s.to_string()).collect();
        got.sort();
        if got == want {
            return Some(value.to_string());
        }
    }
    None
}

const SHOP: [Option<&str>; 4] = [Some("node-1"), Some("shop"), Some("cart-5d9"), Some("cart")];
const SHOP_LABELS: [(&str, &str); 4] =
    [("node", "node-1"), ("namespace", "shop"), ("pod", "cart-5d9"), ("container", "cart")];

fn with_kind<'a>(labels: &[(&'a str, &'a str)], kind: &'a str) -> Vec<(&'a str, &'a str)> {
    let mut all = labels.to_vec();
    all.push(("memory_type", kind));
    all
}

#[test]
fn fresh_store_renders_nothing() {
    assert_eq!(store().get_metrics(), "");
}

#[test]
fn one_kill_is_rendered_in_full() {
    let mut store = store();
    store.record_oom_event(&event(SHOP, raw(204800, 102400, 7, 0), 1700000000));
    let want = "\
# HELP oom_kills_per_node_total Total number of OOM kills per node
# TYPE oom_kills_per_node_total counter
oom_kills_per_node_total{node=\"node-1\"} 1
# HELP oom_kills_total Total number of OOM kills observed
# TYPE oom_kills_total counter
oom_kills_total{container=\"cart\",namespace=\"shop\",node=\"node-1\",pod=\"cart-5d9\"} 1
# HELP oom_last_timestamp Timestamp of the last OOM kill event
# TYPE oom_last_timestamp gauge
oom_last_timestamp{container=\"cart\",namespace=\"shop\",node=\"node-1\",pod=\"cart-5d9\"} 1700000000
# HELP oom_memory_usage_bytes Memory usage in bytes at the time of OOM kill
# TYPE oom_memory_usage_bytes gauge
oom_memory_usage_bytes{container=\"cart\",memory_type=\"anon_rss\",namespace=\"shop\",node=\"node-1\",pod=\"cart-5d9\"} 104857600
oom_memory_usage_bytes{container=\"cart\",memory_type=\"file_rss\",namespace=\"shop\",node=\"node-1\",pod=\"cart-5d9\"} 7168
oom_memory_usage_bytes{container=\"cart\",memory_type=\"shmem_rss\",namespace=\"shop\",node=\"node-1\",pod=\"cart-5d9\"} 0
oom_memory_usage_bytes{container=\"cart\",memory_type=\"total_vm\",namespace=\"shop\",node=\"node-1\",pod=\"cart-5d9\"} 209715200
";
    assert_eq!(store.get_metrics(), want);
}

#[test]
fn kills_of_one_workload_are_counted() {
    let mut store = store();
    for i in 0..5u64 {
        store.record_oom_event(&event(SHOP, raw(i, i, i, i), 100 + i));
    }
    let text = store.get_metrics();
    assert_eq!(sample(&text, "oom_kills_total", &SHOP_LABELS), Some("5".to_string()));
    assert_eq!(sample(&text, "oom_kills_per_node_total", &[("node", "node-1")]), Some("5".to_string()));
}

#[test]
fn other_workloads_stay_at_zero() {
    let mut store = store();
    for _ in 0..3 {
        store.record_oom_event(&event(SHOP, raw(1, 1, 1, 1), 1));
    }
    let text = store.get_metrics();
    let other = [("node", "node-1"), ("namespace", "shop"), ("pod", "cart-5d9"), ("container", "proxy")];
    assert_eq!(sample(&text, "oom_kills_total", &other), None);
    assert_eq!(text.lines().filter(|l| l.starts_with("oom_kills_total{")).count(), 1);
}

#[test]
fn workloads_are_counted_apart() {
    let mut store = store();
    let other = [Some("node-1"), Some("shop"), Some("pay-77"), Some("pay")];
    store.record_oom_event(&event(SHOP, raw(1, 1, 1, 1), 1));
    store.record_oom_event(&event(other, raw(2, 2, 2, 2), 2));
    store.record_oom_event(&event(SHOP, raw(3, 3, 3, 3), 3));
    let text = store.get_metrics();
    assert_eq!(sample(&text, "oom_kills_total", &SHOP_LABELS), Some("2".to_string()));
    let other_labels = [("node", "node-1"), ("namespace", "shop"), ("pod", "pay-77"), ("container", "pay")];
    assert_eq!(sample(&text, "oom_kills_total", &other_labels), Some("1".to_string()));
    assert_eq!(sample(&text, "oom_kills_per_node_total", &[("node", "node-1")]), Some("3".to_string()));
}

#[test]
fn gauges_hold_the_latest_value_not_the_sum() {
    let mut store = store();
    store.record_oom_event(&event(SHOP, raw(1000, 500, 20, 3), 1700000000));
    store.record_oom_event(&event(SHOP, raw(10, 5, 2, 1), 1700000060));
    let text = store.get_metrics();
    let value = |kind: &str| sample(&text, "oom_memory_usage_bytes", &with_kind(&SHOP_LABELS, kind));
    assert_eq!(value("total_vm"), Some("10240".to_string()));
    assert_eq!(value("anon_rss"), Some("5120".to_string()));
    assert_eq!(value("file_rss"), Some("2048".to_string()));
    assert_eq!(value("shmem_rss"), Some("1024".to_string()));
    assert_eq!(sample(&text, "oom_last_timestamp", &SHOP_LABELS), Some("1700000060".to_string()));
}

#[test]
fn kibibytes_are_recorded_as_bytes() {
    let mut store = store();
    store.record_oom_event(&event(SHOP, raw(204800, 102400, 1, 0), 1));
    let text = store.get_metrics();
    let value = |kind: &str| sample(&text, "oom_memory_usage_bytes", &with_kind(&SHOP_LABELS, kind));
    assert_eq!(value("total_vm"), Some("209715200".to_string()));
    assert_eq!(value("anon_rss"), Some("104857600".to_string()));
    assert_eq!(value("file_rss"), Some("1024".to_string()));
    assert_eq!(value("shmem_rss"), Some("0".to_string()));
}

#[test]
fn size_beyond_sixty_four_bits_is_held_at_the_largest_value() {
    let mut store = store();
    let edge = u64::MAX / 1024;
    store.record_oom_event(&event(SHOP, raw(u64::MAX, edge + 1, edge, 0), 1));
    let text = store.get_metrics();
    let value = |kind: &str| sample(&text, "oom_memory_usage_bytes", &with_kind(&SHOP_LABELS, kind));
    let largest = (u64::MAX as f64).to_string();
    assert_eq!(value("total_vm"), Some(largest.clone()));
    assert_eq!(value("anon_rss"), Some(largest));
    assert_eq!(value("file_rss"), Some(((edge * 1024) as f64).to_string()));
}

#[test]
fn absent_parts_are_recorded_as_unknown() {
    let mut store = store();
    store.record_oom_event(&event([Some("node-1"), None, None, None], raw(1, 1, 1, 1), 9));
    store.record_oom_event(&event([None, None, None, None], raw(1, 1, 1, 1), 9));
    let text = store.get_metrics();
    let partly = [("node", "node-1"), ("namespace", "unknown"), ("pod", "unknown"), ("container", "unknown")];
    let fully = [("node", "unknown"), ("namespace", "unknown"), ("pod", "unknown"), ("container", "unknown")];
    assert_eq!(sample(&text, "oom_kills_total", &partly), Some("1".to_string()));
    assert_eq!(sample(&text, "oom_kills_total", &fully), Some("1".to_string()));
    assert_eq!(sample(&text, "oom_kills_per_node_total", &[("node", "unknown")]), Some("1".to_string()));
}

#[test]
fn series_are_told_apart_by_their_values_in_sequence_only() {
    // the key of a series is made of the values' bytes one after the other
    let mut store = store();
    store.record_oom_event(&event([Some("ab"), Some("c"), Some("p"), Some("q")], raw(0, 0, 0, 0), 1));
    store.record_oom_event(&event([Some("a"), Some("bc"), Some("p"), Some("q")], raw(0, 0, 0, 0), 2));
    let text = store.get_metrics();
    let first = [("node", "ab"), ("namespace", "c"), ("pod", "p"), ("container", "q")];
    let second = [("node", "a"), ("namespace", "bc"), ("pod", "p"), ("container", "q")];
    assert_eq!(sample(&text, "oom_kills_total", &first), Some("2".to_string()));
    assert_eq!(sample(&text, "oom_kills_total", &second), None);
    assert_eq!(sample(&text, "oom_last_timestamp", &first), Some("2".to_string()));
}

#[test]
fn handler_answers_with_the_text_and_its_content_type() {
    let mut store = store();
    store.record_oom_event(&event(SHOP, raw(1, 2, 3, 4), 5));
    let response = metrics_handler(&store);
    assert_eq!(CONTENT_TYPE, "text/plain; version=0.0.4; charset=utf-8");
    assert_eq!(response.content_type, CONTENT_TYPE);
    assert_eq!(response.body, store.get_metrics());
    assert!(response.body.contains("# TYPE oom_kills_total counter\n"));
}

#[test]
fn two_stores_do_not_share_their_series() {
    let mut first = store();
    let second = store();
    first.record_oom_event(&event(SHOP, raw(1, 1, 1, 1), 1));
    assert_eq!(second.get_metrics(), "");
    assert_ne!(first.get_metrics(), "");
}
