use cloudstate::bridge::{
    object_get, object_set, plan_object_get, plan_object_set, plan_root_get, plan_root_set,
    root_get, root_set, settle_read, settle_write, BridgeError, OpError,
};
use cloudstate::store::{Command, MemoryStore, StoreError};

#[test]
fn object_round_trip() {
    let mut store = MemoryStore::new();
    let value = "{\"json\":{\"name\":\"hello world\"}}";
    assert_eq!(object_set(&mut store, "test", "o1", value), Ok(()));
    assert_eq!(object_get(&mut store, "test", "o1"), Ok(Some(value.to_string())));
}

#[test]
fn object_round_trip_keeps_every_character() {
    let mut store = MemoryStore::new();
    let value = "a:b\n\t\u{0}é€😀 \"quoted\" ";
    assert_eq!(object_set(&mut store, "ns", "id", value), Ok(()));
    assert_eq!(object_get(&mut store, "ns", "id"), Ok(Some(value.to_string())));
}

#[test]
fn empty_value_round_trips() {
    let mut store = MemoryStore::new();
    assert_eq!(object_set(&mut store, "ns", "id", ""), Ok(()));
    assert_eq!(object_get(&mut store, "ns", "id"), Ok(Some(String::new())));
}

#[test]
fn never_set_object_is_absent() {
    let mut store = MemoryStore::new();
    assert_eq!(object_get(&mut store, "ns", "nothing"), Ok(None));
    assert_eq!(object_set(&mut store, "ns", "other", "v"), Ok(()));
    assert_eq!(object_get(&mut store, "ns", "nothing"), Ok(None));
}

#[test]
fn never_bound_root_is_absent() {
    let mut store = MemoryStore::new();
    assert_eq!(root_get(&mut store, "ns", "main"), Ok(None));
}

#[test]
fn object_set_overwrites_whole_value() {
    let mut store = MemoryStore::new();
    assert_eq!(object_set(&mut store, "ns", "id", "{\"a\":1,\"b\":2}"), Ok(()));
    assert_eq!(object_set(&mut store, "ns", "id", "{\"a\":3}"), Ok(()));
    assert_eq!(object_get(&mut store, "ns", "id"), Ok(Some("{\"a\":3}".to_string())));
    assert_eq!(store.len(), 1);
}

#[test]
fn root_indirection() {
    let mut store = MemoryStore::new();
    assert_eq!(root_set(&mut store, "ns", "a", "obj1"), Ok(()));
    assert_eq!(root_get(&mut store, "ns", "a"), Ok(Some("obj1".to_string())));
}

#[test]
fn dangling_root_resolves() {
    let mut store = MemoryStore::new();
    assert_eq!(root_set(&mut store, "ns", "a", "obj1"), Ok(()));
    assert_eq!(object_get(&mut store, "ns", "obj1"), Ok(None));
    assert_eq!(root_get(&mut store, "ns", "a"), Ok(Some("obj1".to_string())));
}

#[test]
fn root_set_overwrites_binding() {
    let mut store = MemoryStore::new();
    assert_eq!(root_set(&mut store, "ns", "a", "obj1"), Ok(()));
    assert_eq!(root_set(&mut store, "ns", "a", "obj2"), Ok(()));
    assert_eq!(root_get(&mut store, "ns", "a"), Ok(Some("obj2".to_string())));
}

#[test]
fn namespaces_are_isolated() {
    let mut store = MemoryStore::new();
    assert_eq!(object_set(&mut store, "ns1", "x", "v1"), Ok(()));
    assert_eq!(object_set(&mut store, "ns2", "x", "v2"), Ok(()));
    assert_eq!(object_get(&mut store, "ns1", "x"), Ok(Some("v1".to_string())));
    assert_eq!(object_get(&mut store, "ns2", "x"), Ok(Some("v2".to_string())));
    assert_eq!(root_set(&mut store, "ns1", "r", "x"), Ok(()));
    assert_eq!(root_get(&mut store, "ns2", "r"), Ok(None));
}

#[test]
fn objects_and_roots_do_not_collide() {
    let mut store = MemoryStore::new();
    assert_eq!(object_set(&mut store, "ns", "x", "payload"), Ok(()));
    assert_eq!(root_get(&mut store, "ns", "x"), Ok(None));
    assert_eq!(root_set(&mut store, "ns", "x", "target"), Ok(()));
    assert_eq!(object_get(&mut store, "ns", "x"), Ok(Some("payload".to_string())));
    assert_eq!(root_get(&mut store, "ns", "x"), Ok(Some("target".to_string())));
}

#[test]
fn stored_root_survives_into_a_second_run() {
    let mut store = MemoryStore::new();
    let object = "{\"name\":\"hello world\"}";
    // first run: setObject(o); setRoot(o, 't')
    assert_eq!(object_set(&mut store, "test", "o", object), Ok(()));
    assert_eq!(root_set(&mut store, "test", "t", "o"), Ok(()));
    // second run: getRoot('t')
    let id = root_get(&mut store, "test", "t").unwrap().unwrap();
    assert_eq!(id, "o");
    assert_eq!(object_get(&mut store, "test", &id), Ok(Some(object.to_string())));
}

#[test]
fn invalid_namespace_is_rejected() {
    let mut store = MemoryStore::new();
    let e = Err(OpError::Bridge(BridgeError::InvalidNamespace));
    assert_eq!(object_set(&mut store, "", "id", "v"), e);
    assert_eq!(object_set(&mut store, "a:b", "id", "v"), e);
    assert_eq!(object_get(&mut store, "", "id"), Err(OpError::Bridge(BridgeError::InvalidNamespace)));
    assert_eq!(root_set(&mut store, "a:", "alias", "id"), e);
    assert_eq!(root_get(&mut store, ":", "alias"), Err(OpError::Bridge(BridgeError::InvalidNamespace)));
    assert_eq!(store.len(), 0);
}

#[test]
fn invalid_id_is_rejected() {
    let mut store = MemoryStore::new();
    assert_eq!(object_set(&mut store, "ns", "", "v"), Err(OpError::Bridge(BridgeError::InvalidId)));
    assert_eq!(object_set(&mut store, "ns", "a:b", "v"), Err(OpError::Bridge(BridgeError::InvalidId)));
    assert_eq!(object_get(&mut store, "ns", "x:"), Err(OpError::Bridge(BridgeError::InvalidId)));
    assert_eq!(root_set(&mut store, "ns", "alias", ""), Err(OpError::Bridge(BridgeError::InvalidId)));
    assert_eq!(store.len(), 0);
}

#[test]
fn invalid_alias_is_rejected() {
    let mut store = MemoryStore::new();
    assert_eq!(root_set(&mut store, "ns", "", "id"), Err(OpError::Bridge(BridgeError::InvalidAlias)));
    assert_eq!(root_set(&mut store, "ns", "a:b", "id"), Err(OpError::Bridge(BridgeError::InvalidAlias)));
    assert_eq!(root_get(&mut store, "ns", ""), Err(OpError::Bridge(BridgeError::InvalidAlias)));
    assert_eq!(store.len(), 0);
}

#[test]
fn first_fault_is_reported() {
    let mut store = MemoryStore::new();
    assert_eq!(object_set(&mut store, "", "", "v"), Err(OpError::Bridge(BridgeError::InvalidNamespace)));
    assert_eq!(root_set(&mut store, "ns", "", ""), Err(OpError::Bridge(BridgeError::InvalidAlias)));
    assert_eq!(root_set(&mut store, "", "", ""), Err(OpError::Bridge(BridgeError::InvalidNamespace)));
}

#[test]
fn rejected_call_leaves_store_untouched() {
    let mut store = MemoryStore::new();
    assert_eq!(object_set(&mut store, "ns", "x", "v"), Ok(()));
    assert_eq!(object_set(&mut store, "ns", "x:y", "w"), Err(OpError::Bridge(BridgeError::InvalidId)));
    assert_eq!(object_get(&mut store, "ns", "x"), Ok(Some("v".to_string())));
    assert_eq!(store.len(), 1);
}

#[test]
fn delimiter_in_value_is_accepted() {
    let mut store = MemoryStore::new();
    assert_eq!(object_set(&mut store, "ns", "x", "a:b:c"), Ok(()));
    assert_eq!(object_get(&mut store, "ns", "x"), Ok(Some("a:b:c".to_string())));
}

#[test]
fn plans_carry_the_composite_key() {
    assert_eq!(
        plan_object_set("test", "o1", "v"),
        Ok(Command::Write { key: "objects:test:o1".to_string(), value: "v".to_string() })
    );
    assert_eq!(plan_object_get("test", "o1"), Ok(Command::Read { key: "objects:test:o1".to_string() }));
    assert_eq!(
        plan_root_set("test", "main", "o1"),
        Ok(Command::Write { key: "roots:test:main".to_string(), value: "o1".to_string() })
    );
    assert_eq!(plan_root_get("test", "main"), Ok(Command::Read { key: "roots:test:main".to_string() }));
}

#[test]
fn plans_reject_malformed_arguments() {
    assert_eq!(plan_object_set("", "o1", "v"), Err(BridgeError::InvalidNamespace));
    assert_eq!(plan_object_get("ns", "o:1"), Err(BridgeError::InvalidId));
    assert_eq!(plan_root_set("ns", "ma:in", "o1"), Err(BridgeError::InvalidAlias));
    assert_eq!(plan_root_set("ns", "main", ""), Err(BridgeError::InvalidId));
    assert_eq!(plan_root_get("ns", ""), Err(BridgeError::InvalidAlias));
}

#[test]
fn store_failure_is_passed_on() {
    assert_eq!(settle_write(Err(StoreError::Unreachable)), Err(OpError::Store(StoreError::Unreachable)));
    assert_eq!(settle_write(Err(StoreError::CommitFailed)), Err(OpError::Store(StoreError::CommitFailed)));
    assert_eq!(settle_read(Err(StoreError::Unreachable)), Err(OpError::Store(StoreError::Unreachable)));
    assert_eq!(settle_read(Err(StoreError::CommitFailed)), Err(OpError::Store(StoreError::CommitFailed)));
}

#[test]
fn store_reply_is_passed_on() {
    assert_eq!(settle_write(Ok(None)), Ok(()));
    assert_eq!(settle_read(Ok(None)), Ok(None));
    assert_eq!(settle_read(Ok(Some("v".to_string()))), Ok(Some("v".to_string())));
}
