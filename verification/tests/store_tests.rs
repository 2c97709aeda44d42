use gestalt::obj::{ObjectKey, ObjectRecord, WatchError, WatchEvent};
use gestalt::store::Store;

fn node_key(name: &str) -> ObjectKey {
    ObjectKey { kind: "Node".to_string(), namespace: String::new(), name: name.to_string() }
}

fn node_rec(name: &str, rv: &str, payload: &str) -> ObjectRecord {
    ObjectRecord {
        key: node_key(name),
        resource_version: rv.to_string(),
        payload: payload.to_string(),
    }
}

fn find_payload<'a>(snap: &'a [ObjectRecord], name: &str) -> Option<&'a str> {
    snap.iter().find(|r| r.key.name == name).map(|r| r.payload.as_str())
}

#[test]
fn fold_of_event_sequence_keyed_last_wins() {
    let mut store = Store::new();
    let events = vec![
        WatchEvent::Added(node_rec("a", "1", "a-v1")),
        WatchEvent::Added(node_rec("b", "2", "b-v1")),
        WatchEvent::Modified(node_rec("a", "3", "a-v2")),
        WatchEvent::Deleted(node_key("b")),
    ];
    store.apply_events(&events);
    let snap = store.snapshot();
    assert_eq!(snap.len(), 1);
    assert_eq!(snap[0].key.name, "a");
    assert_eq!(snap[0].payload, "a-v2");
    assert_eq!(store.resource_version(), "3");
}

#[test]
fn modified_twice_is_idempotent() {
    let mut store = Store::new();
    store.apply_event(&WatchEvent::Modified(node_rec("a", "5", "same")));
    let first = store.snapshot();
    let rv_first = store.resource_version().clone();
    store.apply_event(&WatchEvent::Modified(node_rec("a", "5", "same")));
    let second = store.snapshot();
    assert_eq!(first.len(), second.len());
    assert_eq!(find_payload(&first, "a"), find_payload(&second, "a"));
    assert_eq!(&rv_first, store.resource_version());
}

#[test]
fn replace_all_discards_stale_keys() {
    let mut store = Store::new();
    store.upsert(node_rec("old1", "1", "x"));
    store.upsert(node_rec("old2", "2", "y"));
    store.replace_all(vec![node_rec("fresh", "10", "z")], "10".to_string());
    let snap = store.snapshot();
    assert_eq!(snap.len(), 1);
    assert!(find_payload(&snap, "old1").is_none());
    assert!(find_payload(&snap, "old2").is_none());
    assert_eq!(find_payload(&snap, "fresh"), Some("z"));
    assert_eq!(store.resource_version(), "10");
}

#[test]
fn listed_node_then_modification_event() {
    let mut store = Store::new();
    store.replace_all(vec![node_rec("n1", "100", "8Gi")], "100".to_string());
    assert_eq!(store.resource_version(), "100");
    store.apply_event(&WatchEvent::Modified(node_rec("n1", "101", "16Gi")));
    let snap = store.snapshot();
    assert_eq!(snap.len(), 1);
    assert_eq!(snap[0].key.name, "n1");
    assert_eq!(snap[0].payload, "16Gi");
}

#[test]
fn remove_absent_key_is_noop() {
    let mut store = Store::new();
    store.upsert(node_rec("a", "1", "x"));
    store.remove(&node_key("missing"));
    let snap = store.snapshot();
    assert_eq!(snap.len(), 1);
    assert_eq!(find_payload(&snap, "a"), Some("x"));
}

#[test]
fn bookmark_updates_only_the_cursor() {
    let mut store = Store::new();
    store.upsert(node_rec("a", "1", "x"));
    store.apply_event(&WatchEvent::Bookmark("7".to_string()));
    assert_eq!(store.resource_version(), "7");
    let snap = store.snapshot();
    assert_eq!(snap.len(), 1);
    assert_eq!(find_payload(&snap, "a"), Some("x"));
}

#[test]
fn error_event_leaves_store_untouched() {
    let mut store = Store::new();
    store.upsert(node_rec("a", "1", "x"));
    store.apply_event(&WatchEvent::Error(WatchError {
        reason: "disconnect".to_string(),
        is_gone: false,
    }));
    let snap = store.snapshot();
    assert_eq!(snap.len(), 1);
    assert_eq!(store.resource_version(), "1");
}

#[test]
fn upsert_distinguishes_namespaces() {
    let mut store = Store::new();
    let mut in_default = node_rec("same", "1", "p1");
    in_default.key.kind = "Pod".to_string();
    in_default.key.namespace = "default".to_string();
    let mut in_other = node_rec("same", "2", "p2");
    in_other.key.kind = "Pod".to_string();
    in_other.key.namespace = "other".to_string();
    store.upsert(in_default);
    store.upsert(in_other);
    assert_eq!(store.len(), 2);
}

#[test]
fn snapshot_is_isolated_from_later_writes() {
    let mut store = Store::new();
    store.upsert(node_rec("a", "1", "old"));
    let snap = store.snapshot();
    store.replace_all(vec![node_rec("b", "9", "new")], "9".to_string());
    assert_eq!(snap.len(), 1);
    assert_eq!(find_payload(&snap, "a"), Some("old"));
    let after = store.snapshot();
    assert_eq!(after.len(), 1);
    assert_eq!(find_payload(&after, "b"), Some("new"));
}
