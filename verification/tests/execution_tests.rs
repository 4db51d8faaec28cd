use shared_serve::{
    process_request, report_delete, report_get, report_insert, report_request, HashTable,
    Operation, Request,
};

#[test]
fn round_trip_prints_the_expected_lines() {
    let mut table = HashTable::new(10);
    let mut output: Vec<String> = Vec::new();
    output.extend(process_request(&Request::new(Operation::INSERT, "test_key", "test_value"), &mut table));
    output.extend(process_request(&Request::new(Operation::GET, "test_key", ""), &mut table));
    output.extend(process_request(&Request::new(Operation::DELETE, "test_key", ""), &mut table));
    for expected in ["Inserting key: test_key", "Getting key: test_key", "Value: test_value", "Deleting key: test_key"] {
        assert!(output.iter().any(|line| line.contains(expected)));
    }
    assert_eq!(table.get("test_key"), None);
}

#[test]
fn insert_request_lines_and_effect() {
    let mut table = HashTable::new(10);
    let lines = process_request(&Request::new(Operation::INSERT, "k", "v"), &mut table);
    assert_eq!(lines, vec![
        String::from("Processing request: Operation: INSERT, Key: k, Value: v"),
        String::from("Inserting key: k"),
    ]);
    assert_eq!(table.get("k"), Some(String::from("v")));
}

#[test]
fn get_request_lines_for_hit_and_miss() {
    let mut table = HashTable::new(10);
    table.insert("k", "v");
    let lines = process_request(&Request::new(Operation::GET, "k", ""), &mut table);
    assert_eq!(lines, vec![
        String::from("Processing request: Operation: GET, Key: k, Value: "),
        String::from("Getting key: k"),
        String::from("Value: v"),
    ]);
    let lines = process_request(&Request::new(Operation::GET, "absent", ""), &mut table);
    assert_eq!(lines, vec![
        String::from("Processing request: Operation: GET, Key: absent, Value: "),
        String::from("Getting key: absent"),
        String::from("Key not found: absent"),
    ]);
    assert_eq!(table.get("k"), Some(String::from("v")));
}

#[test]
fn overwrite_then_get_then_delete_twice() {
    let mut table = HashTable::new(10);
    process_request(&Request::new(Operation::INSERT, "k", "v1"), &mut table);
    process_request(&Request::new(Operation::INSERT, "k", "v2"), &mut table);
    let lines = process_request(&Request::new(Operation::GET, "k", ""), &mut table);
    assert_eq!(lines[2], "Value: v2");
    let lines = process_request(&Request::new(Operation::DELETE, "k", ""), &mut table);
    assert_eq!(lines[1], "Deleting key: k");
    assert_eq!(lines[2], "Key deleted successfully");
    let lines = process_request(&Request::new(Operation::DELETE, "k", ""), &mut table);
    assert_eq!(lines[1], "Deleting key: k");
    assert_eq!(lines[2], "Key not found: k");
}

#[test]
fn get_and_delete_ignore_the_value_bytes() {
    let mut table = HashTable::new(10);
    table.insert("test_key", "test_value");
    let lines = process_request(&Request::new(Operation::GET, "test_key", "Dummy value"), &mut table);
    assert_eq!(lines[2], "Value: test_value");
    let lines = process_request(&Request::new(Operation::DELETE, "test_key", "ignored"), &mut table);
    assert_eq!(lines[2], "Key deleted successfully");
}

#[test]
fn report_lines() {
    assert_eq!(report_insert("k"), vec![String::from("Inserting key: k")]);
    assert_eq!(report_get("k", Some("v")), vec![String::from("Getting key: k"), String::from("Value: v")]);
    assert_eq!(report_get("k", None), vec![String::from("Getting key: k"), String::from("Key not found: k")]);
    assert_eq!(report_delete("k", true), vec![String::from("Deleting key: k"), String::from("Key deleted successfully")]);
    assert_eq!(report_delete("k", false), vec![String::from("Deleting key: k"), String::from("Key not found: k")]);
    assert_eq!(
        report_request(&Request::new(Operation::INSERT, "a", "b")),
        vec![String::from("Processing request: Operation: INSERT, Key: a, Value: b")]
    );
}
