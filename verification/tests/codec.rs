//! Runtime checks of the wire codecs: concrete byte layouts, round trips,
//! and every failure mode.

use zvariant::{
    ByteOrder, EncodingContext, ObjectPath, SharedData, Signature, SimpleVariantType, Variant,
    VariantError, VariantType,
};

fn le_ctx(position: usize) -> EncodingContext {
    EncodingContext::new(ByteOrder::LittleEndian, position)
}

#[test]
fn encode_hi_at_position_zero() {
    let mut bytes: Vec<u8> = Vec::new();
    String::from("hi").encode_into(&mut bytes, le_ctx(0));
    assert_eq!(bytes, vec![0x02, 0x00, 0x00, 0x00, 0x68, 0x69, 0x00]);
}

#[test]
fn encode_hi_at_position_one_is_padded() {
    let mut bytes: Vec<u8> = Vec::new();
    String::from("hi").encode_into(&mut bytes, le_ctx(1));
    // Three zero bytes so the length field starts at absolute offset 4.
    assert_eq!(
        bytes,
        vec![0x00, 0x00, 0x00, 0x02, 0x00, 0x00, 0x00, 0x68, 0x69, 0x00]
    );
}

#[test]
fn encode_hi_big_endian() {
    let mut bytes: Vec<u8> = Vec::new();
    String::from("hi").encode_into(&mut bytes, EncodingContext::new(ByteOrder::BigEndian, 0));
    assert_eq!(bytes, vec![0x00, 0x00, 0x00, 0x02, 0x68, 0x69, 0x00]);
}

#[test]
fn encode_signature_is_never_padded() {
    for position in [0usize, 1, 2, 3, 5, 7] {
        let mut bytes: Vec<u8> = Vec::new();
        Signature::new("s").encode_into(&mut bytes, le_ctx(position));
        assert_eq!(bytes, vec![0x01, 0x73, 0x00]);
    }
}

#[test]
fn string_round_trip() {
    for text in ["", "hi", "hello world", "naïve – ünïcödé"] {
        let mut bytes: Vec<u8> = Vec::new();
        String::from(text).encode_into(&mut bytes, le_ctx(0));
        let data = SharedData::new(bytes);
        let decoded = String::decode(&data, "s", le_ctx(0)).unwrap();
        assert_eq!(decoded, text);
    }
}

#[test]
fn object_path_round_trip() {
    let mut bytes: Vec<u8> = Vec::new();
    ObjectPath::new("/org/freedesktop/DBus").encode_into(&mut bytes, le_ctx(0));
    let data = SharedData::new(bytes);
    let decoded = ObjectPath::decode(&data, "o", le_ctx(0)).unwrap();
    assert_eq!(decoded.as_str(), "/org/freedesktop/DBus");
}

#[test]
fn signature_round_trip() {
    let mut bytes: Vec<u8> = Vec::new();
    Signature::new("a{sv}").encode_into(&mut bytes, le_ctx(0));
    let data = SharedData::new(bytes);
    let decoded = Signature::decode(&data, "g", le_ctx(0)).unwrap();
    assert_eq!(decoded.as_str(), "a{sv}");
}

#[test]
fn u32_round_trip_both_orders() {
    for order in [ByteOrder::LittleEndian, ByteOrder::BigEndian] {
        let ctx = EncodingContext::new(order, 0);
        let mut bytes: Vec<u8> = Vec::new();
        0xdead_beefu32.encode_into(&mut bytes, ctx);
        let data = SharedData::new(bytes);
        assert_eq!(u32::decode(&data, "u", ctx).unwrap(), 0xdead_beef);
    }
}

#[test]
fn signature_claiming_more_than_present_is_insufficient() {
    // Claims three content bytes but only one is present.
    let data = SharedData::new(vec![0x03, 0x61, 0x00]);
    assert_eq!(
        Signature::decode(&data, "g", le_ctx(0)).unwrap_err(),
        VariantError::InsufficientData
    );
}

#[test]
fn truncated_encodings_are_insufficient() {
    let mut bytes: Vec<u8> = Vec::new();
    String::from("hi").encode_into(&mut bytes, le_ctx(0));
    bytes.pop();
    let data = SharedData::new(bytes);
    assert_eq!(
        String::decode(&data, "s", le_ctx(0)).unwrap_err(),
        VariantError::InsufficientData
    );

    let mut bytes: Vec<u8> = Vec::new();
    Signature::new("sss").encode_into(&mut bytes, le_ctx(0));
    bytes.pop();
    let data = SharedData::new(bytes);
    assert_eq!(
        Signature::decode(&data, "g", le_ctx(0)).unwrap_err(),
        VariantError::InsufficientData
    );
}

#[test]
fn empty_buffer_is_insufficient() {
    let data = SharedData::new(Vec::new());
    assert_eq!(
        String::decode(&data, "s", le_ctx(0)).unwrap_err(),
        VariantError::InsufficientData
    );
    assert_eq!(
        Signature::decode(&data, "g", le_ctx(0)).unwrap_err(),
        VariantError::InsufficientData
    );
    assert_eq!(
        u32::decode(&data, "u", le_ctx(0)).unwrap_err(),
        VariantError::InsufficientData
    );
}

#[test]
fn invalid_utf8_content_is_rejected() {
    // Length field says two bytes; the content is not valid UTF-8.
    let data = SharedData::new(vec![0x02, 0x00, 0x00, 0x00, 0xff, 0xfe, 0x00]);
    assert_eq!(
        String::decode(&data, "s", le_ctx(0)).unwrap_err(),
        VariantError::InvalidUtf8
    );

    let data = SharedData::new(vec![0x02, 0xff, 0xfe, 0x00]);
    assert_eq!(
        Signature::decode(&data, "g", le_ctx(0)).unwrap_err(),
        VariantError::InvalidUtf8
    );
}

#[test]
fn wrong_signature_is_incorrect_type() {
    let mut bytes: Vec<u8> = Vec::new();
    String::from("hi").encode_into(&mut bytes, le_ctx(0));
    let data = SharedData::new(bytes);
    assert_eq!(
        String::decode(&data, "g", le_ctx(0)).unwrap_err(),
        VariantError::IncorrectType
    );
    assert_eq!(
        String::slice_data(&data, "o", le_ctx(0)).unwrap_err(),
        VariantError::IncorrectType
    );
    assert_eq!(
        ObjectPath::decode(&data, "s", le_ctx(0)).unwrap_err(),
        VariantError::IncorrectType
    );
    assert_eq!(
        Signature::slice_data(&data, "s", le_ctx(0)).unwrap_err(),
        VariantError::IncorrectType
    );
    assert_eq!(
        u32::decode(&data, "s", le_ctx(0)).unwrap_err(),
        VariantError::IncorrectType
    );
}

#[test]
fn slice_data_bounds_exactly_one_value() {
    let mut bytes: Vec<u8> = Vec::new();
    String::from("hi").encode_into(&mut bytes, le_ctx(0));
    let here = bytes.len();
    String::from("extra").encode_into(&mut bytes, le_ctx(here));
    let data = SharedData::new(bytes);
    let slice = String::slice_data(&data, "s", le_ctx(0)).unwrap();
    assert_eq!(slice.len(), 7);
    slice.apply(|b| assert_eq!(b, &[0x02, 0x00, 0x00, 0x00, 0x68, 0x69, 0x00]));
    // The first value still decodes from the full buffer.
    assert_eq!(String::decode(&data, "s", le_ctx(0)).unwrap(), "hi");
}

#[test]
fn simple_helpers_use_the_implied_signature() {
    let mut bytes: Vec<u8> = Vec::new();
    String::from("hi").encode_into(&mut bytes, le_ctx(0));
    let data = SharedData::new(bytes);
    assert_eq!(String::decode_simple(&data, le_ctx(0)).unwrap(), "hi");
    assert_eq!(String::slice_data_simple(&data, le_ctx(0)).unwrap().len(), 7);
}

#[test]
fn shared_data_head_tail_alias_without_copying() {
    let data = SharedData::new(vec![1, 2, 3, 4, 5]);
    assert_eq!(data.len(), 5);
    let head = data.head(2).unwrap();
    let tail = data.tail(2).unwrap();
    assert_eq!(head.len(), 2);
    head.apply(|b| assert_eq!(b, &[1, 2]));
    tail.apply(|b| assert_eq!(b, &[3, 4, 5]));
    assert_eq!(
        data.head(6).unwrap_err(),
        VariantError::InsufficientData
    );
    assert_eq!(
        data.tail(6).unwrap_err(),
        VariantError::InsufficientData
    );
    // The source is untouched.
    data.apply(|b| assert_eq!(b, &[1, 2, 3, 4, 5]));
}

#[test]
fn variant_tags_match_their_types() {
    let v = ObjectPath::new("/org/example").to_variant();
    assert!(ObjectPath::is(&v));
    assert!(!String::is(&v));
    assert_eq!(
        String::take_from_variant(v.clone()).unwrap_err(),
        VariantError::IncorrectType
    );
    assert_eq!(
        String::from_variant(&v).unwrap_err(),
        VariantError::IncorrectType
    );
    let path = ObjectPath::take_from_variant(v).unwrap();
    assert_eq!(path.as_str(), "/org/example");

    let v = String::from("hello").to_variant();
    assert!(String::is(&v));
    assert_eq!(String::from_variant(&v).unwrap(), "hello");
    assert_eq!(
        Signature::take_from_variant(v).unwrap_err(),
        VariantError::IncorrectType
    );

    let v: Variant = 7u32.to_variant();
    assert!(u32::is(&v));
    assert_eq!(u32::take_from_variant(v).unwrap(), 7);
}

#[test]
fn signature_and_alignment_constants() {
    assert_eq!(String::signature_char(), 's');
    assert_eq!(String::signature_str(), "s");
    assert_eq!(String::alignment(), 4);
    assert_eq!(ObjectPath::signature_char(), 'o');
    assert_eq!(ObjectPath::alignment(), 4);
    assert_eq!(Signature::signature_char(), 'g');
    assert_eq!(Signature::signature_str(), "g");
    assert_eq!(Signature::alignment(), 1);
    assert_eq!(u32::signature_char(), 'u');
    assert_eq!(u32::alignment(), 4);
}

#[test]
fn alignment_holds_from_any_position() {
    for position in 0usize..9 {
        let ctx = le_ctx(position);
        let mut bytes: Vec<u8> = Vec::new();
        String::from("x").encode_into(&mut bytes, ctx);
        // The length field (payload start) must land on a 4-byte boundary
        // relative to the whole message; everything before it is padding.
        let payload_start = bytes.len() - 6;
        assert!(bytes[..payload_start].iter().all(|&b| b == 0));
        assert_eq!((position + payload_start) % 4, 0);
    }
}

#[test]
fn object_path_validity() {
    assert!(zvariant::strings::object_path_is_valid("/"));
    assert!(zvariant::strings::object_path_is_valid("/org/freedesktop/DBus"));
    assert!(!zvariant::strings::object_path_is_valid(""));
    assert!(!zvariant::strings::object_path_is_valid("org/freedesktop"));
    assert!(!zvariant::strings::object_path_is_valid("/org//freedesktop"));
    assert!(!zvariant::strings::object_path_is_valid("/org/"));
}

#[test]
fn signature_validity() {
    assert!(zvariant::strings::signature_str_is_valid("s"));
    assert!(zvariant::strings::signature_str_is_valid("a{sv}"));
    assert!(!zvariant::strings::signature_str_is_valid(""));
    assert!(!zvariant::strings::signature_str_is_valid("s\0s"));
    let long = "s".repeat(256);
    assert!(!zvariant::strings::signature_str_is_valid(&long));
    let just_fits = "s".repeat(255);
    assert!(zvariant::strings::signature_str_is_valid(&just_fits));
}

#[test]
fn decoding_a_malformed_object_path_is_rejected() {
    let mut bytes: Vec<u8> = Vec::new();
    String::from("not-a-path").encode_into(&mut bytes, le_ctx(0));
    let data = SharedData::new(bytes);
    // The same bytes are a fine plain string but not a valid object path.
    assert_eq!(String::decode(&data, "s", le_ctx(0)).unwrap(), "not-a-path");
    assert_eq!(
        ObjectPath::decode(&data, "o", le_ctx(0)).unwrap_err(),
        VariantError::IncorrectType
    );
}
