use rescope::store::flow_store::{FlowExecution, FlowStatus, FlowStore, FLOW_TTL_SECS};
use std::time::{SystemTime, UNIX_EPOCH};

fn now_secs() -> u64 {
    SystemTime::now().duration_since(UNIX_EPOCH).unwrap().as_secs()
}

fn exec(id: &str) -> FlowExecution {
    FlowExecution {
        execution_id: id.to_string(),
        flow_id: "sign-up-or-in-passwords".to_string(),
        status: FlowStatus::Waiting,
        step: 1,
        screen_id: "signIn".to_string(),
        login_id: None,
        created_at: now_secs(),
    }
}

#[test]
fn insert_and_get() {
    let mut store = FlowStore::new();
    store.insert(exec("e1"));
    assert_eq!(store.get("e1").unwrap().step, 1);
    assert_eq!(store.get("e1").unwrap().screen_id, "signIn");
    assert!(store.get("missing").is_none());
}

#[test]
fn advance_sets_step_and_login() {
    let mut store = FlowStore::new();
    store.insert(exec("e1"));
    store.advance_to_password("e1", "u@example.com".into());
    let e = store.get("e1").unwrap();
    assert_eq!(e.step, 2);
    assert_eq!(e.screen_id, "signInPassword");
    assert_eq!(e.login_id.as_deref(), Some("u@example.com"));
    assert_eq!(e.status, FlowStatus::Waiting);
}

#[test]
fn complete_and_fail() {
    let mut store = FlowStore::new();
    store.insert(exec("e1"));
    store.complete("e1");
    assert_eq!(store.get("e1").unwrap().status, FlowStatus::Completed);
    store.fail("e1");
    assert_eq!(store.get("e1").unwrap().status, FlowStatus::Failed);
}

#[test]
fn reset_clears() {
    let mut store = FlowStore::new();
    store.insert(exec("e1"));
    store.reset();
    assert!(store.get("e1").is_none());
}

#[test]
fn sweep_drops_expired() {
    let mut store = FlowStore::new();
    let mut old = exec("old");
    old.created_at = 0;
    store.insert(old);
    store.insert(exec("fresh"));
    store.sweep_expired(FLOW_TTL_SECS + 1);
    assert!(store.get("old").is_none());
    assert!(store.get("fresh").is_some());
}

#[test]
fn sweep_keeps_up_to_the_last_second() {
    let mut store = FlowStore::new();
    let mut e = exec("e1");
    e.created_at = 1_000;
    store.insert(e);
    store.sweep_expired(1_599);
    assert!(store.get("e1").is_some());
    store.sweep_expired(1_600);
    assert!(store.get("e1").is_none());
}

#[test]
fn insert_overwrites_and_leaves_others() {
    let mut store = FlowStore::default();
    store.insert(exec("e1"));
    store.insert(exec("e2"));
    let mut again = exec("e1");
    again.step = 2;
    store.insert(again);
    assert_eq!(store.get("e1").unwrap().step, 2);
    assert_eq!(store.get("e2").unwrap().step, 1);
    store.sweep_expired(now_secs());
    assert!(store.get("e1").is_some());
    assert!(store.get("e2").is_some());
}

#[test]
fn get_mut_writes_through() {
    let mut store = FlowStore::new();
    store.insert(exec("e1"));
    store.insert(exec("e2"));
    store.get_mut("e2").unwrap().step = 2;
    assert!(store.get_mut("e3").is_none());
    assert_eq!(store.get("e1").unwrap().step, 1);
    assert_eq!(store.get("e2").unwrap().step, 2);
}

#[test]
fn unknown_ids_change_nothing() {
    let mut store = FlowStore::new();
    store.insert(exec("e1"));
    store.advance_to_password("e2", "u@example.com".into());
    store.complete("e2");
    store.fail("e2");
    let e = store.get("e1").unwrap().clone();
    assert_eq!(e.step, 1);
    assert_eq!(e.status, FlowStatus::Waiting);
    assert!(store.get("e2").is_none());
}

#[test]
fn sweeping_twice_is_sweeping_at_the_later_time() {
    let fill = || {
        let mut store = FlowStore::new();
        for (id, created_at) in [("a", 0), ("b", 300), ("c", 600)] {
            let mut e = exec(id);
            e.created_at = created_at;
            store.insert(e);
        }
        store
    };
    let mut twice = fill();
    twice.sweep_expired(700);
    twice.sweep_expired(900);
    twice.sweep_expired(900);
    let mut once = fill();
    once.sweep_expired(900);
    for id in ["a", "b", "c"] {
        assert_eq!(twice.get(id).is_some(), once.get(id).is_some());
        assert_eq!(once.get(id).is_some(), id == "c");
    }
}
