use mcnet::deserialize::{Deserializer, Error};
use mcnet::serialize::Serializer;

#[test]
fn test_serialize_int() {
    fn test(n: i32, expected: Vec<u8>) {
        let mut serializer = Serializer::new();
        serializer.serialize_int(n);
        assert_eq!(serializer.finish(), expected);
    }

    test(0, vec![0x00, 0x00, 0x00, 0x00]);
    test(1, vec![0x00, 0x00, 0x00, 0x01]);
    test(-1, vec![0xff, 0xff, 0xff, 0xff]);
    test(2147483647, vec![0x7f, 0xff, 0xff, 0xff]);
    test(-2147483648, vec![0x80, 0x00, 0x00, 0x00]);
}

#[test]
fn test_serialize_varint() {
    fn test(n: i32, expected: Vec<u8>) {
        let mut serializer = Serializer::new();
        serializer.serialize_varint(n);
        assert_eq!(serializer.finish(), expected);
    }

    test(0, vec![0x00]);
    test(1, vec![0x01]);
    test(2, vec![0x02]);
    test(127, vec![0x7f]);
    test(128, vec![0x80, 0x01]);
    test(255, vec![0xff, 0x01]);
    test(25565, vec![0xdd, 0xc7, 0x01]);
    test(2097151, vec![0xff, 0xff, 0x7f]);
    test(2147483647, vec![0xff, 0xff, 0xff, 0xff, 0x07]);
    test(-1, vec![0xff, 0xff, 0xff, 0xff, 0x0f]);
    test(-2147483648, vec![0x80, 0x80, 0x80, 0x80, 0x08]);
}

#[test]
fn test_serialize_varlong() {
    fn test(n: i64, expected: Vec<u8>) {
        let mut serializer = Serializer::new();
        serializer.serialize_varlong(n);
        assert_eq!(serializer.finish(), expected);
    }

    test(0, vec![0x00]);
    test(1, vec![0x01]);
    test(2, vec![0x02]);
    test(127, vec![0x7f]);
    test(128, vec![0x80, 0x01]);
    test(255, vec![0xff, 0x01]);
    test(2147483647, vec![0xff, 0xff, 0xff, 0xff, 0x07]);
    test(
        9223372036854775807,
        vec![0xff, 0xff, 0xff, 0xff, 0xff, 0xff, 0xff, 0xff, 0x7f],
    );
    test(
        -1,
        vec![0xff, 0xff, 0xff, 0xff, 0xff, 0xff, 0xff, 0xff, 0xff, 0x01],
    );
    test(
        -2147483648,
        vec![0x80, 0x80, 0x80, 0x80, 0xf8, 0xff, 0xff, 0xff, 0xff, 0x01],
    );
    test(
        -9223372036854775808,
        vec![0x80, 0x80, 0x80, 0x80, 0x80, 0x80, 0x80, 0x80, 0x80, 0x01],
    );
}

#[test]
fn test_deserialize_int() {
    fn test(n: i32, expected: Vec<u8>) {
        let mut deserializer = Deserializer::new(expected);
        let result = deserializer.deserialize_int().unwrap();
        deserializer.finish().unwrap();
        assert_eq!(result, n);
    }

    test(0, vec![0x00, 0x00, 0x00, 0x00]);
    test(1, vec![0x00, 0x00, 0x00, 0x01]);
    test(-1, vec![0xff, 0xff, 0xff, 0xff]);
    test(2147483647, vec![0x7f, 0xff, 0xff, 0xff]);
    test(-2147483648, vec![0x80, 0x00, 0x00, 0x00]);
}

#[test]
fn test_deserialize_varint() {
    fn test(n: i32, expected: Vec<u8>) {
        let mut deserializer = Deserializer::new(expected);
        let result = deserializer.deserialize_varint().unwrap();
        deserializer.finish().unwrap();
        assert_eq!(result, n);
    }

    test(0, vec![0x00]);
    test(1, vec![0x01]);
    test(2, vec![0x02]);
    test(127, vec![0x7f]);
    test(128, vec![0x80, 0x01]);
    test(255, vec![0xff, 0x01]);
    test(25565, vec![0xdd, 0xc7, 0x01]);
    test(2097151, vec![0xff, 0xff, 0x7f]);
    test(2147483647, vec![0xff, 0xff, 0xff, 0xff, 0x07]);
    test(-1, vec![0xff, 0xff, 0xff, 0xff, 0x0f]);
    test(-2147483648, vec![0x80, 0x80, 0x80, 0x80, 0x08]);
}

#[test]
fn test_deserialize_varlong() {
    fn test(n: i64, expected: Vec<u8>) {
        let mut deserializer = Deserializer::new(expected);
        let result = deserializer.deserialize_varlong().unwrap();
        deserializer.finish().unwrap();
        assert_eq!(result, n);
    }

    test(0, vec![0x00]);
    test(1, vec![0x01]);
    test(2, vec![0x02]);
    test(127, vec![0x7f]);
    test(128, vec![0x80, 0x01]);
    test(255, vec![0xff, 0x01]);
    test(2147483647, vec![0xff, 0xff, 0xff, 0xff, 0x07]);
    test(
        9223372036854775807,
        vec![0xff, 0xff, 0xff, 0xff, 0xff, 0xff, 0xff, 0xff, 0x7f],
    );
    test(
        -1,
        vec![0xff, 0xff, 0xff, 0xff, 0xff, 0xff, 0xff, 0xff, 0xff, 0x01],
    );
    test(
        -2147483648,
        vec![0x80, 0x80, 0x80, 0x80, 0xf8, 0xff, 0xff, 0xff, 0xff, 0x01],
    );
    test(
        -9223372036854775808,
        vec![0x80, 0x80, 0x80, 0x80, 0x80, 0x80, 0x80, 0x80, 0x80, 0x01],
    );
}

#[test]
fn varint_too_long_on_fifth_continuation() {
    let mut d = Deserializer::new(vec![0x80, 0x80, 0x80, 0x80, 0x80, 0x01]);
    assert!(matches!(d.deserialize_varint(), Err(Error::VarintTooLong)));
}

#[test]
fn varlong_too_long_on_tenth_continuation() {
    let mut d = Deserializer::new(vec![
        0x80, 0x80, 0x80, 0x80, 0x80, 0x80, 0x80, 0x80, 0x80, 0x80, 0x01,
    ]);
    assert!(matches!(d.deserialize_varlong(), Err(Error::VarlongTooLong)));
}

#[test]
fn end_of_packet_on_short_input() {
    let mut d = Deserializer::new(vec![0x01]);
    assert!(matches!(d.deserialize_int(), Err(Error::EndOfPacket)));
}

#[test]
fn bytes_remaining_after_partial_read() {
    let mut d = Deserializer::new(vec![0x01, 0x02]);
    d.deserialize_ubyte().unwrap();
    assert!(matches!(d.finish(), Err(Error::BytesRemaining)));
}

#[test]
fn utf8_error_on_invalid_bytes() {
    // Length 2, then an unfinished two-byte sequence.
    let mut d = Deserializer::new(vec![0x02, 0xC3, 0x28]);
    assert!(matches!(d.deserialize_string(), Err(Error::Utf8Error)));
}

#[test]
fn fixed_width_round_trips() {
    let mut s = Serializer::new();
    s.serialize_boolean(true);
    s.serialize_byte(-5);
    s.serialize_ubyte(200);
    s.serialize_short(-12345);
    s.serialize_ushort(54321);
    s.serialize_uint(0xDEADBEEF);
    s.serialize_long(-1234567890123456789);
    s.serialize_ulong(0xFEDCBA9876543210);
    let mut d = Deserializer::new(s.finish());
    assert!(d.deserialize_boolean().unwrap());
    assert_eq!(d.deserialize_byte().unwrap(), -5);
    assert_eq!(d.deserialize_ubyte().unwrap(), 200);
    assert_eq!(d.deserialize_short().unwrap(), -12345);
    assert_eq!(d.deserialize_ushort().unwrap(), 54321);
    assert_eq!(d.deserialize_uint().unwrap(), 0xDEADBEEF);
    assert_eq!(d.deserialize_long().unwrap(), -1234567890123456789);
    assert_eq!(d.deserialize_ulong().unwrap(), 0xFEDCBA9876543210);
    d.finish().unwrap();
}

#[test]
fn string_round_trip() {
    let mut s = Serializer::new();
    s.serialize_string("grün ☃");
    let mut d = Deserializer::new(s.finish());
    assert_eq!(d.deserialize_string().unwrap(), "grün ☃");
    d.finish().unwrap();
}

#[test]
fn uuid_round_trip() {
    let u = mcnet::wire::Uuid { hi: 0x0123456789ABCDEF, lo: 0xFEDCBA9876543210 };
    let mut s = Serializer::new();
    s.serialize_uuid(u);
    let bytes = s.finish();
    assert_eq!(bytes.len(), 16);
    assert_eq!(bytes[0], 0x01);
    assert_eq!(bytes[15], 0x10);
    let mut d = Deserializer::new(bytes);
    assert_eq!(d.deserialize_uuid().unwrap(), u);
    d.finish().unwrap();
}

#[test]
fn prefixed_byte_array_round_trip() {
    let mut s = Serializer::new();
    s.serialize_prefixed_byte_array(&[9, 8, 7]);
    let bytes = s.finish();
    assert_eq!(bytes, vec![3, 9, 8, 7]);
    let mut d = Deserializer::new(bytes);
    assert_eq!(d.deserialize_prefixed_byte_array().unwrap(), vec![9, 8, 7]);
    d.finish().unwrap();
}
