use sharded_kv::store::Shard;
use sharded_kv::store::hash_key;
use sharded_kv::store::new_shard_db;

#[test]
fn fnv_hash_of_empty_key_is_offset_basis() {
    assert_eq!(hash_key(&String::new()), 0xcbf2_9ce4_8422_2325);
}

#[test]
fn fnv_hash_of_single_byte_key() {
    assert_eq!(hash_key(&"a".to_string()), 0xaf63_dc4c_8601_ec8c);
}

#[test]
fn route_is_deterministic() {
    let store = new_shard_db(7);
    let key = "hello".to_string();
    let first = store.route(&key);
    for _ in 0..10 {
        assert_eq!(store.route(&key), first);
    }
    assert_eq!(store.route(&"hello".to_string()), first);
}

#[test]
fn route_is_hash_modulo_shard_count() {
    let store = new_shard_db(7);
    let key = "hello".to_string();
    assert_eq!(store.route(&key) as u64, hash_key(&key) % 7);
    assert!(store.route(&key) < 7);
}

#[test]
fn set_then_get_returns_value() {
    let mut store = new_shard_db(4);
    store.set("hello".to_string(), b"world".to_vec());
    assert_eq!(store.get(&"hello".to_string()), Some(b"world".to_vec()));
}

#[test]
fn get_of_key_never_set_is_absent() {
    let store = new_shard_db(4);
    assert_eq!(store.get(&"missing".to_string()), None);
}

#[test]
fn set_overwrites_earlier_value() {
    let mut store = new_shard_db(4);
    store.set("k".to_string(), b"first".to_vec());
    store.set("k".to_string(), b"second".to_vec());
    assert_eq!(store.get(&"k".to_string()), Some(b"second".to_vec()));
}

#[test]
fn absent_key_stays_absent_after_other_sets() {
    let mut store = new_shard_db(4);
    store.set("other".to_string(), b"x".to_vec());
    assert_eq!(store.get(&"missing".to_string()), None);
}

#[test]
fn many_keys_land_in_their_own_slots() {
    let mut store = new_shard_db(4);
    for i in 0..32u32 {
        store.set(format!("key-{}", i), format!("value-{}", i).into_bytes());
    }
    for i in 0..32u32 {
        assert_eq!(
            store.get(&format!("key-{}", i)),
            Some(format!("value-{}", i).into_bytes())
        );
    }
}

#[test]
fn single_shard_store_gives_identical_results() {
    let mut one = new_shard_db(1);
    let mut many = new_shard_db(5);
    let ops = [("a", "1"), ("b", "2"), ("a", "3"), ("c", "4")];
    for (k, v) in ops.iter() {
        one.set(k.to_string(), v.as_bytes().to_vec());
        many.set(k.to_string(), v.as_bytes().to_vec());
    }
    for k in ["a", "b", "c", "d"].iter() {
        assert_eq!(one.get(&k.to_string()), many.get(&k.to_string()));
    }
}

#[test]
fn into_shards_hands_out_the_chosen_count() {
    let store = new_shard_db(6);
    assert_eq!(store.shard_count(), 6);
    let shards = store.into_shards();
    assert_eq!(shards.len(), 6);
}

#[test]
fn two_writes_to_one_key_leave_one_whole_value() {
    for order in 0..2 {
        let mut store = new_shard_db(4);
        let (first, second) = if order == 0 { ("v1", "v2") } else { ("v2", "v1") };
        store.set("k".to_string(), first.as_bytes().to_vec());
        store.set("k".to_string(), second.as_bytes().to_vec());
        let got = store.get(&"k".to_string()).unwrap();
        assert_eq!(got, second.as_bytes().to_vec());
        assert!(got == b"v1".to_vec() || got == b"v2".to_vec());
    }
}

#[test]
fn shard_set_and_get_directly() {
    let mut shard = Shard::new();
    assert_eq!(shard.get(&"k".to_string()), None);
    shard.set("k".to_string(), b"v".to_vec());
    assert_eq!(shard.get(&"k".to_string()), Some(b"v".to_vec()));
    shard.set("k".to_string(), b"w".to_vec());
    assert_eq!(shard.get(&"k".to_string()), Some(b"w".to_vec()));
}

#[test]
fn empty_key_and_empty_value_are_stored() {
    let mut store = new_shard_db(3);
    store.set(String::new(), Vec::new());
    assert_eq!(store.get(&String::new()), Some(Vec::new()));
}
