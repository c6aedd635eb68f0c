use record_store::codec::{decode_frame, encode_frame, Decoded};

fn frame(text: &str) -> Vec<u8> {
    encode_frame(&text.to_string())
}

#[test]
fn frame_is_length_header_then_text() {
    assert_eq!(frame("abc"), vec![3, 0, 0, 0, 0, 0, 0, 0, b'a', b'b', b'c']);
}

#[test]
fn empty_text_is_a_bare_header() {
    assert_eq!(frame(""), vec![0, 0, 0, 0, 0, 0, 0, 0]);
    assert_eq!(
        decode_frame(&[0, 0, 0, 0, 0, 0, 0, 0]),
        Decoded::Frame { text: String::new(), consumed: 8 }
    );
}

#[test]
fn header_counts_bytes_not_characters() {
    let bytes = frame("caf\u{e9}");
    assert_eq!(bytes[..8], [5, 0, 0, 0, 0, 0, 0, 0]);
    assert_eq!(bytes.len(), 13);
}

#[test]
fn long_text_uses_the_higher_header_bytes() {
    let text = "x".repeat(300);
    let bytes = frame(&text);
    assert_eq!(bytes[..8], [44, 1, 0, 0, 0, 0, 0, 0]);
    assert_eq!(decode_frame(&bytes), Decoded::Frame { text, consumed: 308 });
}

#[test]
fn frame_agrees_with_the_serializer() {
    for text in ["", "x", "not-json", "{\"Read\":\"All\"}", "\u{1f600} \n\t"] {
        let expected = bincode::serialize(&text.to_string()).unwrap();
        assert_eq!(frame(text), expected);
    }
}

#[test]
fn decoding_returns_the_encoded_text() {
    for text in ["", "x", "Operation completed", "caf\u{e9} \u{1f600}"] {
        let bytes = frame(text);
        let consumed = bytes.len();
        assert_eq!(decode_frame(&bytes), Decoded::Frame { text: text.to_string(), consumed });
    }
}

#[test]
fn bytes_behind_a_frame_are_left_alone() {
    let mut bytes = frame("one");
    bytes.extend_from_slice(&frame("two"));
    assert_eq!(decode_frame(&bytes), Decoded::Frame { text: "one".to_string(), consumed: 11 });
    assert_eq!(
        decode_frame(&bytes[11..]),
        Decoded::Frame { text: "two".to_string(), consumed: 11 }
    );
}

#[test]
fn every_proper_prefix_of_a_frame_is_incomplete() {
    let bytes = frame("hello");
    for cut in 0..bytes.len() {
        assert_eq!(decode_frame(&bytes[..cut]), Decoded::Incomplete);
    }
}

#[test]
fn payload_that_is_not_utf8_is_malformed() {
    let bytes = vec![2, 0, 0, 0, 0, 0, 0, 0, 0xff, 0xfe];
    assert_eq!(decode_frame(&bytes), Decoded::Malformed);
}

#[test]
fn truncated_multibyte_character_is_malformed() {
    let bytes = vec![1, 0, 0, 0, 0, 0, 0, 0, 0xc3];
    assert_eq!(decode_frame(&bytes), Decoded::Malformed);
}

#[test]
fn length_beyond_memory_is_malformed() {
    let bytes = vec![0xff; 8];
    assert_eq!(decode_frame(&bytes), Decoded::Malformed);
    let mut more = vec![0xf8, 0xff, 0xff, 0xff, 0xff, 0xff, 0xff, 0xff];
    more.extend_from_slice(b"abc");
    assert_eq!(decode_frame(&more), Decoded::Malformed);
}

#[test]
fn large_announced_length_waits_for_its_payload() {
    let mut bytes = vec![0, 0, 0, 0, 1, 0, 0, 0];
    bytes.extend_from_slice(b"abc");
    assert_eq!(decode_frame(&bytes), Decoded::Incomplete);
}
