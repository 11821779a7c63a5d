use llm_agent::memory::{memory, DefaultMemory, Memory, MemoryHandle};
use llm_agent::state::SharedState;

#[test]
fn memory_round_trip() {
    let mut store = DefaultMemory::new();
    store.set("greeting", "hello".to_string());
    assert_eq!(store.get("greeting"), Some("hello".to_string()));
}

#[test]
fn memory_missing_key_is_none() {
    let store = DefaultMemory::new();
    assert_eq!(store.get("never_stored"), None);
}

#[test]
fn memory_overwrite_wins() {
    let mut store = memory();
    store.set("k", "first".to_string());
    store.set("k", "second".to_string());
    assert_eq!(store.get("k"), Some("second".to_string()));
}

#[test]
fn memory_distinct_keys_kept() {
    let mut store = memory();
    store.set("a", "1".to_string());
    store.set("b", "2".to_string());
    assert_eq!(store.get("a"), Some("1".to_string()));
    assert_eq!(store.get("b"), Some("2".to_string()));
}

#[test]
fn memory_handle_round_trip() {
    let handle = MemoryHandle::new(memory());
    handle.set("k", "v".to_string());
    assert_eq!(handle.get("k"), Some("v".to_string()));
    assert_eq!(handle.get("missing"), None);
}

#[test]
fn shared_state_set_then_get() {
    let state = SharedState::new();
    assert_eq!(state.set("key1", "value1".to_string()), Ok(()));
    assert_eq!(state.get("key1"), Ok(Some("value1".to_string())));
}

#[test]
fn shared_state_distinct_writers_keep_both() {
    let state = SharedState::new();
    state.set("left", "l".to_string()).unwrap();
    state.set("right", "r".to_string()).unwrap();
    assert_eq!(state.get("left"), Ok(Some("l".to_string())));
    assert_eq!(state.get("right"), Ok(Some("r".to_string())));
}

#[test]
fn shared_state_missing_key() {
    let state = SharedState::new();
    assert_eq!(state.get("absent"), Ok(None));
}

#[test]
fn shared_state_overwrite_observed() {
    let state = SharedState::new();
    state.set("k", "old".to_string()).unwrap();
    state.set("k", "new".to_string()).unwrap();
    assert_eq!(state.get("k"), Ok(Some("new".to_string())));
}
