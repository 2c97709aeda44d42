use gestalt::obj::{ObjectKey, ObjectRecord, WatchError, WatchEvent};
use gestalt::reflector::{Phase, ReflectorAction, ReflectorInput, StoreHandle};

fn pod_rec(name: &str, rv: &str, payload: &str) -> ObjectRecord {
    ObjectRecord {
        key: ObjectKey {
            kind: "Pod".to_string(),
            namespace: "default".to_string(),
            name: name.to_string(),
        },
        resource_version: rv.to_string(),
        payload: payload.to_string(),
    }
}

fn gone() -> WatchEvent {
    WatchEvent::Error(WatchError { reason: "history compacted".to_string(), is_gone: true })
}

fn transient() -> WatchEvent {
    WatchEvent::Error(WatchError { reason: "disconnect".to_string(), is_gone: false })
}

#[test]
fn successful_list_starts_watching_at_returned_cursor() {
    let mut h = StoreHandle::new();
    assert_eq!(h.phase(), Phase::Listing);
    let act = h.step(ReflectorInput::ListOk(vec![pod_rec("p1", "10", "x")], "10".to_string()));
    assert!(matches!(act, ReflectorAction::StartWatch(rv) if rv == "10"));
    assert_eq!(h.phase(), Phase::Watching);
    assert_eq!(h.snapshot().len(), 1);
}

#[test]
fn gone_error_forces_full_relist_before_more_events() {
    let mut h = StoreHandle::new();
    h.step(ReflectorInput::ListOk(vec![pod_rec("p1", "10", "x")], "10".to_string()));
    let act = h.step(ReflectorInput::Watch(gone()));
    assert!(matches!(act, ReflectorAction::List));
    assert_eq!(h.phase(), Phase::Relisting);
    // The cache itself is untouched until the fresh list arrives.
    assert_eq!(h.snapshot().len(), 1);
    // The relist replaces everything; the stale key is gone.
    let act = h.step(ReflectorInput::ListOk(vec![pod_rec("p2", "20", "y")], "20".to_string()));
    assert!(matches!(act, ReflectorAction::StartWatch(rv) if rv == "20"));
    let snap = h.snapshot();
    assert_eq!(snap.len(), 1);
    assert_eq!(snap[0].key.name, "p2");
}

#[test]
fn transient_error_backs_off_and_resumes_from_cursor() {
    let mut h = StoreHandle::new();
    h.step(ReflectorInput::ListOk(vec![], "10".to_string()));
    h.step(ReflectorInput::Watch(WatchEvent::Bookmark("11".to_string())));
    let act = h.step(ReflectorInput::Watch(transient()));
    assert!(matches!(act, ReflectorAction::WaitThenWatch(1000, rv) if rv == "11"));
    assert_eq!(h.phase(), Phase::Watching);
    let act = h.step(ReflectorInput::Watch(transient()));
    assert!(matches!(act, ReflectorAction::WaitThenWatch(2000, rv) if rv == "11"));
}

#[test]
fn backoff_doubles_up_to_the_ceiling() {
    let mut h = StoreHandle::new();
    let mut expected: u64 = 1000;
    for _ in 0..10 {
        let act = h.step(ReflectorInput::ListErr);
        match act {
            ReflectorAction::WaitThenList(ms) => assert_eq!(ms, expected),
            other => panic!("expected WaitThenList, got {:?}", action_name(&other)),
        }
        expected = (expected * 2).min(30000);
    }
}

fn action_name(a: &ReflectorAction) -> &'static str {
    match a {
        ReflectorAction::List => "List",
        ReflectorAction::StartWatch(_) => "StartWatch",
        ReflectorAction::WaitThenList(_) => "WaitThenList",
        ReflectorAction::WaitThenWatch(_, _) => "WaitThenWatch",
        ReflectorAction::Continue => "Continue",
        ReflectorAction::Stop => "Stop",
    }
}

#[test]
fn delivered_event_resets_the_backoff() {
    let mut h = StoreHandle::new();
    h.step(ReflectorInput::ListOk(vec![], "10".to_string()));
    h.step(ReflectorInput::Watch(transient()));
    h.step(ReflectorInput::Watch(transient()));
    // A successfully delivered event resets the wait to its base.
    let act = h.step(ReflectorInput::Watch(WatchEvent::Added(pod_rec("p1", "12", "x"))));
    assert!(matches!(act, ReflectorAction::Continue));
    let act = h.step(ReflectorInput::Watch(transient()));
    assert!(matches!(act, ReflectorAction::WaitThenWatch(1000, _)));
}

#[test]
fn stream_end_resumes_not_relists() {
    let mut h = StoreHandle::new();
    h.step(ReflectorInput::ListOk(vec![pod_rec("p1", "10", "x")], "10".to_string()));
    let act = h.step(ReflectorInput::StreamEnd);
    assert!(matches!(act, ReflectorAction::WaitThenWatch(1000, rv) if rv == "10"));
    assert_eq!(h.phase(), Phase::Watching);
    assert_eq!(h.snapshot().len(), 1);
}

#[test]
fn failed_list_keeps_previous_snapshot_servable() {
    let mut h = StoreHandle::new();
    h.step(ReflectorInput::ListOk(vec![pod_rec("p1", "10", "x")], "10".to_string()));
    h.step(ReflectorInput::Watch(gone()));
    let act = h.step(ReflectorInput::ListErr);
    assert!(matches!(act, ReflectorAction::WaitThenList(1000)));
    assert_eq!(h.phase(), Phase::Relisting);
    assert_eq!(h.snapshot().len(), 1);
}

#[test]
fn cancel_stops_and_store_stays_readable() {
    let mut h = StoreHandle::new();
    h.step(ReflectorInput::ListOk(vec![pod_rec("p1", "10", "x")], "10".to_string()));
    let act = h.step(ReflectorInput::Cancel);
    assert!(matches!(act, ReflectorAction::Stop));
    assert_eq!(h.phase(), Phase::Stopped);
    // Once stopped, every further input is absorbed.
    let act = h.step(ReflectorInput::Cancel);
    assert!(matches!(act, ReflectorAction::Stop));
    assert_eq!(h.snapshot().len(), 1);
    assert_eq!(h.resource_version(), "10");
}
