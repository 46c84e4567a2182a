use db_server::storage::sleddb::{decode_items, flip, ivec_to_key, stored_to_value};
use db_server::{KvError, Kvpair, SledDb, Storage, Value};
use tempfile::tempdir;

fn open(dir: &tempfile::TempDir) -> SledDb {
    SledDb::new(dir.path().to_str().unwrap()).unwrap()
}

fn test_basi_interface(mut store: impl Storage) {
    let v = store.set("t1", "k1".into(), "v".into());
    assert!(v.unwrap().is_none());
    let v1 = store.set("t1", "k1".into(), "v1".into());
    assert_eq!(v1.unwrap(), Some("v".into()));
    let v = store.get("t1", "k1");
    assert_eq!(v.unwrap(), Some("v1".into()));

    assert_eq!(store.get("t1", "k2").unwrap(), None);
    assert!(store.get("t2", "k1").unwrap().is_none());
    assert_eq!(store.contains("t1", "k1").unwrap(), true);
    assert_eq!(store.contains("t1", "k2").unwrap(), false);
    assert_eq!(store.contains("t2", "k1").unwrap(), false);
    let v = store.del("t1", "k1");
    assert_eq!(v.unwrap(), Some("v1".into()));
    let v = store.del("t1", "hello");
    assert_eq!(v.unwrap(), None);
    assert_eq!(None, store.del("t1", "k1").unwrap());
    assert_eq!(None, store.del("t2", "k").unwrap());
}

fn test_get_all(mut store: impl Storage) {
    store.set("t2", "k1".into(), "v1".into()).unwrap();
    store.set("t2", "k2".into(), "v2".into()).unwrap();

    let mut data = store.get_all("t2").unwrap();
    data.sort_by(|a, b| a.partial_cmp(b).unwrap());
    assert_eq!(data, vec![Kvpair::new("k1", "v1".into()), Kvpair::new("k2", "v2".into())]);
}

fn test_get_iter(mut store: impl Storage) {
    store.set("t2", "k1".into(), "v1".into()).unwrap();
    store.set("t2", "k2".into(), "v2".into()).unwrap();

    let mut iter = store.get_iter("t2").unwrap();
    let mut data = Vec::new();
    while let Some(pair) = iter.next() {
        data.push(pair);
    }
    data.sort_by(|a, b| a.partial_cmp(b).unwrap());
    assert_eq!(data, vec![Kvpair::new("k1", "v1".into()), Kvpair::new("k2", "v2".into())]);
}

#[test]
fn sleddb_basic_interface_should_work() {
    let dir = tempdir().unwrap();
    let store = open(&dir);
    test_basi_interface(store);
}

#[test]
fn sleddb_get_all_should_work() {
    let dir = tempdir().unwrap();
    let store = open(&dir);
    test_get_all(store);
}

#[test]
fn sleddb_iter_should_work() {
    let dir = tempdir().unwrap();
    let store = open(&dir);
    test_get_iter(store);
}

#[test]
fn sleddb_keeps_every_kind_of_value() {
    let dir = tempdir().unwrap();
    let mut store = open(&dir);
    let values: Vec<Value> = vec![
        Value::default(),
        "text \u{e9}\u{4e2d}".into(),
        "".into(),
        vec![0u8, 255, 58].into(),
        (-7i64).into(),
        i64::MIN.into(),
        true.into(),
        false.into(),
        Value { value: Some(db_server::value::Value::Float(0x4009_21fb_5444_2d18)) },
    ];
    for (i, v) in values.iter().enumerate() {
        store.set("t", format!("k{}", i), v.clone()).unwrap();
    }
    for (i, v) in values.iter().enumerate() {
        assert_eq!(store.get("t", &format!("k{}", i)), Ok(Some(v.clone())));
    }
}

#[test]
fn sleddb_tables_with_a_common_start_do_not_mix() {
    let dir = tempdir().unwrap();
    let mut store = open(&dir);
    store.set("t", "k".into(), 1.into()).unwrap();
    store.set("t2", "k".into(), 2.into()).unwrap();
    store.set("t", "a:b".into(), 3.into()).unwrap();
    let mut data = store.get_all("t").unwrap();
    data.sort_by(|a, b| a.partial_cmp(b).unwrap());
    assert_eq!(data, vec![Kvpair::new("a:b", 3.into()), Kvpair::new("k", 1.into())]);
    assert_eq!(store.get_all("t2").unwrap(), vec![Kvpair::new("k", 2.into())]);
    assert_eq!(store.get_all("none").unwrap(), vec![]);
}

#[test]
fn sleddb_set_get_del_get() {
    let dir = tempdir().unwrap();
    let mut store = open(&dir);
    assert_eq!(store.set("t", "k".into(), "v1".into()), Ok(None));
    assert_eq!(store.set("t", "k".into(), "v2".into()), Ok(Some("v1".into())));
    assert_eq!(store.get("t", "k"), Ok(Some("v2".into())));
    assert_eq!(store.del("t", "k"), Ok(Some("v2".into())));
    assert_eq!(store.get("t", "k"), Ok(None));
}

#[test]
fn full_key_and_prefix_are_colon_joined() {
    assert_eq!(SledDb::get_full_key("t1", "k1"), "t1:k1");
    assert_eq!(SledDb::get_full_key("", ""), ":");
    assert_eq!(SledDb::get_table_prefix("t1"), "t1:");
}

#[test]
fn stored_key_is_what_follows_the_first_colon() {
    assert_eq!(ivec_to_key(b"t1:k1"), Ok("k1".to_string()));
    assert_eq!(ivec_to_key(b"t1:a:b"), Ok("a:b".to_string()));
    assert_eq!(ivec_to_key(b"t1:"), Ok("".to_string()));
    assert!(matches!(ivec_to_key(b"no colon"), Err(KvError::Internal(_))));
    assert!(matches!(ivec_to_key(&[b't', b':', 0xff]), Err(KvError::Internal(_))));
}

#[test]
fn flip_turns_the_result_inside_out() {
    assert_eq!(flip::<u8, u8>(None), Ok(None));
    assert_eq!(flip::<u8, u8>(Some(Ok(1))), Ok(Some(1)));
    assert_eq!(flip::<u8, u8>(Some(Err(2))), Err(2));
}

#[test]
fn sled_errors_become_service_errors() {
    let e: KvError = sled::Error::CollectionNotFound(sled::IVec::from(&b"x"[..])).into();
    assert_eq!(e, KvError::NotFound("can not find table".into(), "can not find key".into()));
    let e: KvError = sled::Error::Unsupported("x".into()).into();
    assert_eq!(e, KvError::InvalidCommand("Invalid Command".into()));
    let e: KvError = sled::Error::ReportableBug("x".into()).into();
    assert_eq!(e, KvError::Internal("Internal error".into()));
}

#[test]
fn stored_bytes_become_values() {
    assert_eq!(stored_to_value(None), Ok(None));
    assert_eq!(stored_to_value(Some(vec![1, b'v'])), Ok(Some("v".into())));
    assert_eq!(stored_to_value(Some(vec![0])), Ok(Some(Value::default())));
    assert_eq!(
        stored_to_value(Some(vec![9, 9])),
        Err(KvError::ConvertError(Value::binary(vec![9, 9]), "Value"))
    );
}

#[test]
fn stored_entries_become_pairs_in_order() {
    let items = vec![(b"t:b".to_vec(), vec![3, 0, 0, 0, 0, 0, 0, 0, 7]), (b"t:a".to_vec(), vec![1, b'x'])];
    assert_eq!(decode_items(&items), Ok(vec![Kvpair::new("b", 7.into()), Kvpair::new("a", "x".into())]));
    assert_eq!(decode_items(&vec![]), Ok(vec![]));
    // the first entry that cannot be read decides the error
    let items = vec![(b"t:a".to_vec(), vec![1, b'x']), (b"nocolon".to_vec(), vec![0]), (b"t:c".to_vec(), vec![9])];
    assert_eq!(decode_items(&items), Err(KvError::Internal("Invalid stored key".into())));
    let items = vec![(b"t:a".to_vec(), vec![9]), (b"nocolon".to_vec(), vec![0])];
    assert_eq!(decode_items(&items), Err(KvError::ConvertError(Value::binary(vec![9]), "Value")));
}

#[test]
fn sleddb_cannot_open_what_is_no_directory() {
    let file = tempfile::NamedTempFile::new().unwrap();
    let r = SledDb::new(file.path().to_str().unwrap());
    assert_eq!(r.err(), Some(KvError::Internal("Internal error".into())));
}

#[test]
fn sleddb_iterates_in_key_order() {
    let dir = tempdir().unwrap();
    let mut store = open(&dir);
    for key in ["c", "a", "b"] {
        store.set("t", key.into(), key.into()).unwrap();
    }
    let mut iter = store.get_iter("t").unwrap();
    let mut keys = Vec::new();
    while let Some(pair) = iter.next() {
        keys.push(pair.key);
    }
    assert_eq!(keys, vec!["a", "b", "c"]);
    let all: Vec<String> = store.get_all("t").unwrap().into_iter().map(|p| p.key).collect();
    assert_eq!(all, vec!["a", "b", "c"]);
}
