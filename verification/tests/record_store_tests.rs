use bola_api::record_store::{
    keys_segment, namespace_is_available, owned_segment, owned_write_message, NameSet, OwnError,
    ReadError, RecordStore, WriteError, WritePlan,
};

fn s(x: &str) -> String {
    x.to_string()
}

#[test]
fn name_sets_hold_each_name_once() {
    let mut n = NameSet::new();
    n.insert(s("a"));
    n.insert(s("a"));
    n.insert(s("b"));
    assert!(n.contains("a") && n.contains("b"));
    n.remove("a");
    assert!(!n.contains("a"));
    assert!(n.contains("b"));
    n.remove("zzz");
    assert!(n.contains("b"));
}

#[test]
fn ownership_decides_writes() {
    let mut store = RecordStore::open(vec![(s("users"), vec![s("ann")]), (s("games"), vec![])]);
    assert!(store.is_record_owned("users", "ann"));
    assert!(!store.is_record_owned("users", "bob"));
    assert!(!store.is_record_owned("nowhere", "ann"));
    assert_eq!(store.write_plan("users", "ann"), Ok(WritePlan::WriteOwned { wait_for_mirror: false }));
    assert_eq!(store.write_plan("users", "bob"), Ok(WritePlan::RequestOwnership { wait_for_mirror: false }));
    assert_eq!(store.write_plan("nowhere", "x"), Err(WriteError::UnrecognizedNamespace));
    assert_eq!(store.own_record("users", s("bob"), false), Err(OwnError::UnrecognizedName));
    assert_eq!(store.own_record("nowhere", s("bob"), true), Err(OwnError::UnrecognizedNamespace));
    assert_eq!(store.own_record("users", s("bob"), true), Ok(()));
    assert!(store.is_record_owned("users", "bob"));
}

#[test]
fn mirrors_are_waited_for() {
    let mut store = RecordStore::open(vec![(s("games"), vec![s("g1")])]);
    assert_eq!(store.start_mirror("games", s("g1")), Ok(false));
    assert_eq!(store.start_mirror("games", s("g1")), Ok(true));
    assert_eq!(store.write_plan("games", "g1"), Ok(WritePlan::WriteOwned { wait_for_mirror: true }));
    store.drop_mirrored_data("games", "g1");
    assert_eq!(store.write_plan("games", "g1"), Ok(WritePlan::WriteOwned { wait_for_mirror: false }));
    assert_eq!(store.start_mirror("nope", s("g1")), Err(ReadError::UnrecognizedNamespace));
}

#[test]
fn segment_names_and_namespaces() {
    assert_eq!(owned_segment("users"), "_users_owned");
    assert_eq!(keys_segment("users"), "_users_keys");
    assert!(namespace_is_available("users", &vec![s("games")]));
    assert!(!namespace_is_available("games", &vec![s("games")]));
    assert!(!namespace_is_available("_hidden", &vec![]));
    assert!(namespace_is_available("", &vec![]));
}

#[test]
fn owned_writes_are_tagged() {
    let mut expected = b"OwnedWrite".to_vec();
    expected.push(0);
    expected.extend_from_slice(&[1, 2, 3]);
    assert_eq!(owned_write_message(&[1, 2, 3]), expected);
}
