use shared_serve::{bucket_index, Bucket, HashTable};

#[test]
fn lib_test_hash_table() {
    let mut hash_table = HashTable::new(10);
    hash_table.insert("key1", "value1");
    hash_table.insert("key2", "value2");
    hash_table.insert("key1", "value3");
    assert_eq!(hash_table.get("key1").unwrap().as_str(), "value3");
    assert_eq!(hash_table.get("key2").unwrap().as_str(), "value2");
}

#[test]
fn lib_test_hash_table_delete() {
    let mut hash_table = HashTable::new(10);
    hash_table.insert("key1", "value1");
    hash_table.delete("key1");
    assert_eq!(hash_table.get("key1"), None);
}

#[test]
fn lib_test_hash_table_insert() {
    let mut hash_table = HashTable::new(10);
    hash_table.insert("key1", "value1");
    assert_eq!(hash_table.get("key1").unwrap().as_str(), "value1");
}

#[test]
fn hash_of_short_keys_is_the_polynomial_reduced() {
    assert_eq!(bucket_index("key1", 10), 8);
    assert_eq!(bucket_index("key2", 10), 9);
    assert_eq!(bucket_index("test_key", 10), 2);
    assert_eq!(bucket_index("", 10), 0);
    assert_eq!(bucket_index("é", 10), 3);
}

#[test]
fn hash_of_long_keys_does_not_wrap() {
    assert_eq!(bucket_index("abcdefghijklmnopqrstuvwxyz", 10), 7);
    assert_eq!(bucket_index("abcdefghijklmnopqrstuvwxyz", 7), 6);
}

#[test]
fn hash_with_one_bucket_is_zero() {
    assert_eq!(bucket_index("anything", 1), 0);
}

#[test]
fn table_methods_agree_on_the_bucket() {
    let table = HashTable::new(10);
    assert_eq!(table.size(), 10);
    assert_eq!(table.hash("key1"), 8);
    assert_eq!(table.get_bucket("key1"), 8);
    assert_eq!(table.get_bucket("a"), table.get_bucket("k"));
}

#[test]
fn get_after_insert_returns_the_value() {
    let mut table = HashTable::new(10);
    table.insert("k", "v");
    assert_eq!(table.get("k"), Some(String::from("v")));
    table.insert("other", "w");
    table.delete("missing");
    assert_eq!(table.get("k"), Some(String::from("v")));
}

#[test]
fn get_after_delete_returns_none_until_next_insert() {
    let mut table = HashTable::new(10);
    table.insert("k", "v");
    assert!(table.delete("k"));
    assert_eq!(table.get("k"), None);
    table.insert("a", "1");
    table.insert("u", "2");
    assert!(table.delete("a"));
    assert_eq!(table.get("k"), None);
    table.insert("k", "again");
    assert_eq!(table.get("k"), Some(String::from("again")));
}

#[test]
fn overwrite_then_delete_twice() {
    let mut table = HashTable::new(10);
    table.insert("k", "v1");
    table.insert("k", "v2");
    assert_eq!(table.get("k"), Some(String::from("v2")));
    assert!(table.delete("k"));
    assert!(!table.delete("k"));
}

#[test]
fn insert_twice_leaves_one_cell() {
    let mut bucket = Bucket::new();
    bucket.insert("k", "v1");
    bucket.insert("k", "v2");
    assert_eq!(bucket.len(), 1);
    assert_eq!(bucket.get("k"), Some(String::from("v2")));
}

#[test]
fn overwrite_keeps_the_position_in_the_bucket() {
    let mut bucket = Bucket::new();
    bucket.insert("a", "1");
    bucket.insert("k", "2");
    bucket.insert("u", "3");
    bucket.insert("a", "4");
    assert_eq!(bucket.len(), 3);
    assert!(bucket.delete("k"));
    assert_eq!(bucket.len(), 2);
    assert_eq!(bucket.get("a"), Some(String::from("4")));
    assert_eq!(bucket.get("u"), Some(String::from("3")));
    assert_eq!(bucket.get("k"), None);
    assert!(!bucket.delete("k"));
}

#[test]
fn colliding_keys_share_a_bucket_and_keep_their_values() {
    let mut table = HashTable::new(10);
    assert_eq!(table.get_bucket("a"), 7);
    assert_eq!(table.get_bucket("k"), 7);
    assert_eq!(table.get_bucket("u"), 7);
    assert_eq!(table.get_bucket("b"), 8);
    table.insert("a", "va");
    table.insert("b", "vb");
    table.insert("k", "vk");
    table.insert("u", "vu");
    assert_eq!(table.get("a"), Some(String::from("va")));
    assert_eq!(table.get("k"), Some(String::from("vk")));
    assert_eq!(table.get("u"), Some(String::from("vu")));
    assert_eq!(table.get("b"), Some(String::from("vb")));
}

#[test]
fn inserts_into_distinct_buckets_commute() {
    let mut first = HashTable::new(10);
    first.insert("a", "1");
    first.insert("b", "2");
    let mut second = HashTable::new(10);
    second.insert("b", "2");
    second.insert("a", "1");
    assert_eq!(first.get("a"), second.get("a"));
    assert_eq!(first.get("b"), second.get("b"));
    assert_eq!(first.get("a"), Some(String::from("1")));
    assert_eq!(first.get("b"), Some(String::from("2")));
}

#[test]
fn empty_key_and_empty_value_are_legal() {
    let mut table = HashTable::new(10);
    table.insert("", "");
    assert_eq!(table.get(""), Some(String::new()));
    assert!(table.delete(""));
    assert_eq!(table.get(""), None);
}

#[test]
fn table_without_buckets_can_be_made() {
    let table = HashTable::new(0);
    assert_eq!(table.size(), 0);
}
