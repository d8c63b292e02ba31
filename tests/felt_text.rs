use forge_runner::felt::Felt;
use forge_runner::summary::build_readable_text;

fn felt(bytes: &[u8]) -> Felt {
    Felt::from_be_bytes(bytes.to_vec())
}

#[test]
fn short_string_decodes_ascii() {
    assert_eq!(felt(b"call failed").as_short_string(), Some(String::from("call failed")));
}

#[test]
fn short_string_ignores_leading_zeros() {
    let mut bytes = vec![0u8, 0, 0];
    bytes.extend_from_slice(b"abc");
    assert_eq!(felt(&bytes).as_short_string(), Some(String::from("abc")));
}

#[test]
fn short_string_drops_trailing_zeros() {
    assert_eq!(felt(&[b'a', b'b', 0, 0]).as_short_string(), Some(String::from("ab")));
}

#[test]
fn short_string_rejects_text_after_zero() {
    assert_eq!(felt(&[b'a', 0, b'b']).as_short_string(), None);
}

#[test]
fn short_string_rejects_non_ascii() {
    assert_eq!(felt(&[b'a', 0xc3, 0xa9]).as_short_string(), None);
}

#[test]
fn short_string_of_zero_is_empty() {
    assert_eq!(felt(&[0, 0]).as_short_string(), Some(String::new()));
    assert_eq!(felt(&[]).as_short_string(), Some(String::new()));
}

#[test]
fn hex_of_call_failed() {
    assert_eq!(felt(b"call failed").to_hex(), "0x63616c6c206661696c6564");
}

#[test]
fn hex_drops_leading_zero_digits() {
    assert_eq!(felt(&[0, 0x0a, 0x01]).to_hex(), "0xa01");
    assert_eq!(felt(&[0x00, 0x00]).to_hex(), "0x0");
    assert_eq!(felt(&[]).to_hex(), "0x0");
    assert_eq!(felt(&[0xff]).to_hex(), "0xff");
}

#[test]
fn readable_text_of_no_data_is_none() {
    assert_eq!(build_readable_text(&vec![]), None);
}

#[test]
fn readable_text_lists_each_felt() {
    let data = vec![felt(b"call failed"), felt(&[0xc3, 0xa9])];
    assert_eq!(
        build_readable_text(&data),
        Some(String::from("\n    0x63616c6c206661696c6564 ('call failed')\n    0xc3a9\n"))
    );
}
