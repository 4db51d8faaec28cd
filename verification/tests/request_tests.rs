use shared_serve::{Operation, Request, KEY_CAPACITY, REQUEST_SIZE, VALUE_CAPACITY};

#[test]
fn operation_codes_are_fixed() {
    assert_eq!(Operation::GET.code(), 0);
    assert_eq!(Operation::INSERT.code(), 1);
    assert_eq!(Operation::DELETE.code(), 2);
    assert_eq!(Operation::from_code(0), Some(Operation::GET));
    assert_eq!(Operation::from_code(1), Some(Operation::INSERT));
    assert_eq!(Operation::from_code(2), Some(Operation::DELETE));
    assert_eq!(Operation::from_code(3), None);
    assert_eq!(Operation::from_code(255), None);
}

#[test]
fn operation_names() {
    assert_eq!(Operation::GET.name(), "GET");
    assert_eq!(Operation::INSERT.name(), "INSERT");
    assert_eq!(Operation::DELETE.name(), "DELETE");
}

#[test]
fn new_request_is_zero_padded() {
    let request = Request::new(Operation::INSERT, "ab", "xyz");
    assert_eq!(request.operation, Operation::INSERT);
    assert_eq!(request.key[0], b'a');
    assert_eq!(request.key[1], b'b');
    assert!(request.key[2..].iter().all(|&b| b == 0));
    assert_eq!(&request.value[..3], &b"xyz"[..]);
    assert!(request.value[3..].iter().all(|&b| b == 0));
}

#[test]
fn key_and_value_round_trip() {
    let request = Request::new(Operation::INSERT, "test_key", "test_value");
    assert_eq!(request.key_str(), "test_key");
    assert_eq!(request.value_str(), "test_value");
}

#[test]
fn non_ascii_text_round_trips() {
    let request = Request::new(Operation::INSERT, "clé", "värde ✓");
    assert_eq!(request.key_str(), "clé");
    assert_eq!(request.value_str(), "värde ✓");
}

#[test]
fn empty_key_and_value() {
    let request = Request::new(Operation::GET, "", "");
    assert_eq!(request.key_str(), "");
    assert_eq!(request.value_str(), "");
    assert_eq!(request.key, [0u8; 64]);
    assert_eq!(request.value, [0u8; 256]);
}

#[test]
fn long_key_is_cut_to_64_bytes() {
    let long = "k".repeat(100);
    let request = Request::new(Operation::INSERT, &long, "v");
    assert_eq!(request.key, [b'k'; 64]);
    assert_eq!(request.key_str(), "k".repeat(64));
}

#[test]
fn long_value_is_cut_to_256_bytes() {
    let long = "0123456789".repeat(30);
    let request = Request::new(Operation::INSERT, "k", &long);
    assert_eq!(request.value_str(), &long[..256]);
    assert_eq!(request.value_str().len(), 256);
}

#[test]
fn key_of_exactly_64_bytes_is_kept() {
    let exact = "x".repeat(64);
    let request = Request::new(Operation::INSERT, &exact, "");
    assert_eq!(request.key_str(), exact);
}

#[test]
fn embedded_zero_ends_the_string() {
    let request = Request::new(Operation::INSERT, "ab\0cd", "v");
    assert_eq!(request.key_str(), "ab");
    assert_eq!(&request.key[..5], &b"ab\0cd"[..]);
}

#[test]
fn cut_inside_a_character_reads_as_invalid() {
    let mut key = "a".repeat(63);
    key.push('é');
    let request = Request::new(Operation::INSERT, &key, "v");
    assert_eq!(request.key[63], 0xC3);
    assert_eq!(request.key_str(), "<invalid utf8>");
}

#[test]
fn bytes_to_str_reads_up_to_the_first_zero() {
    assert_eq!(Request::bytes_to_str(&[b'h', b'i', 0, b'x']), "hi");
    assert_eq!(Request::bytes_to_str(&[b'h', b'i', b'!']), "hi!");
    assert_eq!(Request::bytes_to_str(&[0u8; 4]), "");
    assert_eq!(Request::bytes_to_str(&[0xC3, 0xA9, 0, 0]), "é");
}

#[test]
fn bytes_to_str_rejects_invalid_utf8() {
    assert_eq!(Request::bytes_to_str(&[0xFF, b'a', 0]), "<invalid utf8>");
    assert_eq!(Request::bytes_to_str(&[0xC3, 0, 0xA9]), "<invalid utf8>");
}

#[test]
fn describe_names_operation_key_and_value() {
    let request = Request::new(Operation::INSERT, "test_key", "test_value");
    assert_eq!(request.describe(), "Operation: INSERT, Key: test_key, Value: test_value");
    let request = Request::new(Operation::GET, "k", "");
    assert_eq!(request.describe(), "Operation: GET, Key: k, Value: ");
    let request = Request::new(Operation::DELETE, "k", "");
    assert_eq!(request.describe(), "Operation: DELETE, Key: k, Value: ");
}

#[test]
fn record_sizes() {
    assert_eq!(KEY_CAPACITY, 64);
    assert_eq!(VALUE_CAPACITY, 256);
    assert_eq!(REQUEST_SIZE, 1 + KEY_CAPACITY + VALUE_CAPACITY);
}

#[test]
fn wire_form_is_code_key_value() {
    let request = Request::new(Operation::DELETE, "ab", "xyz");
    let bytes = request.to_bytes();
    assert_eq!(bytes.len(), 321);
    assert_eq!(bytes[0], 2);
    assert_eq!(&bytes[1..3], &b"ab"[..]);
    assert!(bytes[3..65].iter().all(|&b| b == 0));
    assert_eq!(&bytes[65..68], &b"xyz"[..]);
    assert!(bytes[68..].iter().all(|&b| b == 0));
}

#[test]
fn wire_form_round_trips() {
    let request = Request::new(Operation::INSERT, "test_key", "test_value");
    let back = Request::from_bytes(&request.to_bytes()).unwrap();
    assert_eq!(back.operation, Operation::INSERT);
    assert_eq!(back.key, request.key);
    assert_eq!(back.value, request.value);
    assert_eq!(back.key_str(), "test_key");
    assert_eq!(back.value_str(), "test_value");
}

#[test]
fn zero_filled_slot_reads_as_an_empty_get() {
    let request = Request::from_bytes(&[0u8; 321]).unwrap();
    assert_eq!(request.operation, Operation::GET);
    assert_eq!(request.key_str(), "");
    assert_eq!(request.value_str(), "");
}

#[test]
fn from_bytes_rejects_wrong_size_and_unknown_code() {
    assert!(Request::from_bytes(&[0u8; 320]).is_none());
    assert!(Request::from_bytes(&[0u8; 322]).is_none());
    assert!(Request::from_bytes(&[]).is_none());
    let mut bytes = [0u8; 321];
    bytes[0] = 3;
    assert!(Request::from_bytes(&bytes).is_none());
    bytes[0] = 2;
    assert!(Request::from_bytes(&bytes).is_some());
}
