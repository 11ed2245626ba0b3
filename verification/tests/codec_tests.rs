use event_service::codec::{decode_message, encode_message};

#[test]
fn round_trip_message() {
    let bytes = encode_message(7, &String::from("Standup"), &String::from("Daily sync"));
    let decoded = decode_message(&bytes).expect("a freshly encoded message must decode");
    assert_eq!(decoded.0, 7);
    assert_eq!(decoded.1, "Standup");
    assert_eq!(decoded.2, "Daily sync");
}

#[test]
fn round_trip_empty_fields() {
    let bytes = encode_message(0, &String::new(), &String::new());
    assert_eq!(bytes.len(), 24);
    let decoded = decode_message(&bytes).expect("an empty message must decode");
    assert_eq!(decoded.0, 0);
    assert_eq!(decoded.1, "");
    assert_eq!(decoded.2, "");
}

#[test]
fn round_trip_unicode_text() {
    let bytes = encode_message(41, &String::from("réunion à 9h"), &String::from("café ☕"));
    let decoded = decode_message(&bytes).expect("unicode text must decode");
    assert_eq!(decoded.0, 41);
    assert_eq!(decoded.1, "réunion à 9h");
    assert_eq!(decoded.2, "café ☕");
}

#[test]
fn decode_rejects_short_input() {
    assert!(decode_message(&vec![1, 2, 3]).is_none());
    assert!(decode_message(&Vec::new()).is_none());
    assert!(decode_message(&vec![0; 23]).is_none());
}

#[test]
fn decode_rejects_truncated_message() {
    let mut bytes = encode_message(9, &String::from("abc"), &String::from("def"));
    bytes.pop();
    assert!(decode_message(&bytes).is_none());
}

#[test]
fn decode_rejects_trailing_garbage() {
    let mut bytes = encode_message(9, &String::from("abc"), &String::from("def"));
    bytes.push(0);
    assert!(decode_message(&bytes).is_none());
}

#[test]
fn decode_rejects_invalid_utf8() {
    // id 5, summary length 1 with the lone continuation byte 0xff, empty description
    let mut bytes = Vec::new();
    bytes.extend_from_slice(&5u64.to_le_bytes());
    bytes.extend_from_slice(&1u64.to_le_bytes());
    bytes.push(0xff);
    bytes.extend_from_slice(&0u64.to_le_bytes());
    assert_eq!(bytes.len(), 25);
    assert!(decode_message(&bytes).is_none());
}
