//! Byte-path codec behaviour on concrete inputs.

use trash::codec::{percent_decode, percent_encode};
use trash::error::EncodingError;

fn enc(bytes: &[u8]) -> Vec<u8> {
    percent_encode(&bytes.to_vec())
}

fn dec(bytes: &[u8]) -> Result<Vec<u8>, EncodingError> {
    percent_decode(&bytes.to_vec())
}

#[test]
fn test_path_byte() {
    let invalid_utf8: &[u8] = b"\x80"; // lone continuation byte (128) (invalid utf8)
    let percent_encoded: &[u8] = b"%80"; // valid path text in the escaped encoding

    let mut expected_path = b"trash-test-111-0".to_vec();
    let mut path_with_invalid_utf8 = expected_path.clone();

    path_with_invalid_utf8.push(b'/');
    path_with_invalid_utf8.extend_from_slice(invalid_utf8);
    expected_path.push(b'/');
    expected_path.extend_from_slice(percent_encoded);

    let actual = percent_encode(&path_with_invalid_utf8);
    assert_eq!(actual, expected_path);
}

#[test]
fn round_trip_plain_ascii() {
    let original: &[u8] = br#"/tmp/trash-test/a"b, and space"#;
    let encoded = enc(original);
    // printable ASCII other than the marker passes through unchanged
    assert_eq!(encoded, original.to_vec());
    assert_eq!(dec(&encoded).unwrap(), original.to_vec());
}

#[test]
fn round_trip_every_byte_value() {
    let mut original: Vec<u8> = Vec::new();
    for b in 0..=255u8 {
        original.push(b);
    }
    let encoded = percent_encode(&original);
    for &b in &encoded {
        assert!((0x20..=0x7e).contains(&b), "encoder emitted a non-printable byte");
    }
    assert_eq!(percent_decode(&encoded).unwrap(), original);
}

#[test]
fn round_trip_invalid_text_bytes() {
    let original: &[u8] = b"/Volumes/Untitled/\x83\x73";
    let encoded = enc(original);
    assert_eq!(encoded, b"/Volumes/Untitled/%83s".to_vec());
    assert_eq!(dec(&encoded).unwrap(), original.to_vec());
}

#[test]
fn marker_is_always_escaped() {
    assert_eq!(enc(b"a%b"), b"a%25b".to_vec());
    assert_eq!(enc(b"a%25b"), b"a%2525b".to_vec());
    // a path holding the marker collides with no pre-escaped path
    assert_ne!(enc(b"a%b"), enc(b"a%25b"));
    assert_eq!(dec(b"a%25b").unwrap(), b"a%b".to_vec());
    assert_eq!(dec(b"a%2525b").unwrap(), b"a%25b".to_vec());
}

#[test]
fn non_printable_bytes_become_uppercase_tokens() {
    assert_eq!(enc(&[0x00, 0x1f, 0x7f, 0xff]), b"%00%1F%7F%FF".to_vec());
    assert_eq!(enc(b"\ttab\nnewline"), b"%09tab%0Anewline".to_vec());
}

#[test]
fn decoder_accepts_lowercase_digits() {
    assert_eq!(dec(b"%7e%7E").unwrap(), vec![0x7e, 0x7e]);
    assert_eq!(dec(b"%ff").unwrap(), vec![0xff]);
}

#[test]
fn truncated_token_is_a_hard_error() {
    assert!(matches!(dec(b"abc%"), Err(EncodingError::MalformedToken)));
    assert!(matches!(dec(b"abc%8"), Err(EncodingError::MalformedToken)));
}

#[test]
fn malformed_token_is_a_hard_error() {
    assert!(matches!(dec(b"%8g"), Err(EncodingError::MalformedToken)));
    assert!(matches!(dec(b"%%25"), Err(EncodingError::MalformedToken)));
    assert!(matches!(dec(b"a% 0b"), Err(EncodingError::MalformedToken)));
}

#[test]
fn empty_input_round_trips() {
    assert_eq!(enc(b""), Vec::<u8>::new());
    assert_eq!(dec(b"").unwrap(), Vec::<u8>::new());
}
