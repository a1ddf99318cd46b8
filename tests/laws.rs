use msgpack::{
    Code, DataError, Float, FloatNumber, PackError, RangeError, UnpackError, Utf8String, Value,
};

#[test]
fn pack_sequence_bytes() {
    let mut w = vec![];
    msgpack::pack_nil(&mut w).unwrap();
    msgpack::pack_bool(&mut w, false).unwrap();
    msgpack::pack_from_u64(&mut w, 1).unwrap();
    msgpack::pack_from_i64(&mut w, -1).unwrap();
    msgpack::pack_array_header(&mut w, 2).unwrap();
    msgpack::pack_from_u8(&mut w, 1).unwrap();
    msgpack::pack_from_u8(&mut w, 2).unwrap();
    msgpack::pack_map_header(&mut w, 1).unwrap();
    msgpack::pack_from_u8(&mut w, 1).unwrap();
    msgpack::pack_str(&mut w, "s").unwrap();
    assert_eq!(w, [0xc0, 0xc2, 0x01, 0xff, 0x92, 0x01, 0x02, 0x81, 0x01, 0xa1, 0x73]);
}

#[test]
fn pack_value_sequence_bytes() {
    let mut w = vec![];
    for v in [
        Value::Nil,
        Value::Boolean(false),
        Value::from(1 as u8),
        Value::from(-1 as i8),
        Value::Array(vec![Value::from(1 as u8), Value::from(2 as u8)]),
        Value::Pairs(vec![(Value::from(1 as u8), Value::from("s".to_owned()))]),
    ] {
        msgpack::pack_value(&mut w, v).unwrap();
    }
    assert_eq!(w, [0xc0, 0xc2, 0x01, 0xff, 0x92, 0x01, 0x02, 0x81, 0x01, 0xa1, 0x73]);
}

#[test]
fn pack_str_hello() {
    let mut w = vec![];
    msgpack::pack_str(&mut w, "hello").unwrap();
    assert_eq!(w, [0xa5, 0x68, 0x65, 0x6c, 0x6c, 0x6f]);
}

#[test]
fn pack_timestamp_forms() {
    let mut w = vec![];
    msgpack::pack_timestamp(&mut w, 1, 0).unwrap();
    assert_eq!(w, [0xd6, 0xff, 0x00, 0x00, 0x00, 0x01]);
    let mut w = vec![];
    msgpack::pack_timestamp(&mut w, 1, 1).unwrap();
    assert_eq!(w, [0xd7, 0xff, 0x00, 0x00, 0x00, 0x04, 0x00, 0x00, 0x00, 0x01]);
    let mut w = vec![];
    msgpack::pack_timestamp(&mut w, 1 << 35, 1).unwrap();
    assert_eq!(
        w,
        [0xc7, 0x0c, 0xff, 0x00, 0x00, 0x00, 0x01, 0x00, 0x00, 0x00, 0x08, 0x00, 0x00, 0x00, 0x00]
    );
}

#[test]
fn pack_timestamp_wide_nanoseconds_use_96_bits() {
    let mut w = vec![];
    msgpack::pack_timestamp(&mut w, 1, 1 << 30).unwrap();
    assert_eq!(w[0..3], [0xc7, 0x0c, 0xff]);
    let mut rd: &[u8] = &w;
    assert_eq!(msgpack::unpack_timestamp96(&mut rd).unwrap(), (1, 1 << 30));
}

#[test]
fn pack_timestamp64_out_of_range() {
    let mut w = vec![];
    assert_eq!(
        msgpack::pack_timestamp64(&mut w, 1 << 34, 0),
        Err(PackError::OutOfRange(RangeError::Timestamp64(1 << 34, 0)))
    );
    assert!(w.is_empty());
}

#[test]
fn reserved_byte_is_invalid_data() {
    let mut rd: &[u8] = &[0xc1];
    assert_eq!(
        msgpack::unpack_value(&mut rd),
        Err(UnpackError::InvalidData(DataError::ReservedCode))
    );
    let mut rd: &[u8] = &[0xc1];
    assert!(matches!(msgpack::unpack_u8(&mut rd), Err(UnpackError::InvalidData(_))));
}

#[test]
fn uint16_via_unpack_u8_mismatches() {
    let mut rd: &[u8] = &[0xcd, 0x01, 0x00];
    assert_eq!(
        msgpack::unpack_u8(&mut rd),
        Err(UnpackError::TypeMismatch(Code::Uint16, "u8"))
    );
    assert_eq!(rd, &[0x01, 0x00]);
}

#[test]
fn negative_ext_type_is_out_of_range() {
    let mut w = vec![];
    assert_eq!(
        msgpack::pack_ext_header(&mut w, -2, 1),
        Err(PackError::OutOfRange(RangeError::ExtType(-2)))
    );
    assert!(w.is_empty());
}

#[test]
fn fix_int_ranges_are_checked() {
    let mut w = vec![];
    assert_eq!(
        msgpack::pack_pos_fixint(&mut w, 128),
        Err(PackError::OutOfRange(RangeError::PosFixInt(128)))
    );
    assert_eq!(
        msgpack::pack_neg_fix_int(&mut w, -33),
        Err(PackError::OutOfRange(RangeError::NegFixInt(-33)))
    );
    assert!(w.is_empty());
}

#[test]
fn explicit_widths_round_trip() {
    let mut w = vec![];
    msgpack::pack_u8(&mut w, 7).unwrap();
    msgpack::pack_u16(&mut w, 7).unwrap();
    msgpack::pack_u32(&mut w, 70000).unwrap();
    msgpack::pack_u64(&mut w, u64::MAX).unwrap();
    msgpack::pack_i8(&mut w, 5).unwrap();
    msgpack::pack_i16(&mut w, -300).unwrap();
    msgpack::pack_i32(&mut w, i32::MIN).unwrap();
    msgpack::pack_i64(&mut w, i64::MIN).unwrap();
    msgpack::pack_f32(&mut w, 1.5f32.to_bits()).unwrap();
    msgpack::pack_f64(&mut w, (-2.25f64).to_bits()).unwrap();
    let mut rd: &[u8] = &w;
    assert_eq!(msgpack::unpack_u8(&mut rd).unwrap(), 7);
    assert_eq!(msgpack::unpack_u16(&mut rd).unwrap(), 7);
    assert_eq!(msgpack::unpack_u32(&mut rd).unwrap(), 70000);
    assert_eq!(msgpack::unpack_u64(&mut rd).unwrap(), u64::MAX);
    assert_eq!(msgpack::unpack_i8(&mut rd).unwrap(), 5);
    assert_eq!(msgpack::unpack_i16(&mut rd).unwrap(), -300);
    assert_eq!(msgpack::unpack_i32(&mut rd).unwrap(), i32::MIN);
    assert_eq!(msgpack::unpack_i64(&mut rd).unwrap(), i64::MIN);
    assert_eq!(f32::from_bits(msgpack::unpack_f32(&mut rd).unwrap()), 1.5f32);
    assert_eq!(f64::from_bits(msgpack::unpack_f64(&mut rd).unwrap()), -2.25f64);
    assert!(rd.is_empty());
}

#[test]
fn value_round_trip_with_invalid_utf8() {
    let v = Value::Array(vec![
        Value::String(msgpack::value::utf8_string_from_bytes(vec![0xc3, 0x28, 0x61])),
        Value::String(Utf8String::new("ok".to_owned())),
        Value::Float(Float { n: FloatNumber::Float32(0x3fc0_0000) }),
        Value::Extension(3, vec![1, 2, 3]),
        Value::Timestamp(-1, 999_999_999),
        Value::Timestamp(1 << 33, 0),
        Value::from(-129 as i16),
        Value::from(u64::MAX),
        Value::Pairs(vec![(Value::Nil, Value::Binary(vec![0; 300]))]),
    ]);
    let mut w2 = vec![];
    let expected = format!("{:?}", v);
    msgpack::pack_value(&mut w2, v).unwrap();
    let mut rd: &[u8] = &w2;
    let back = msgpack::unpack_value(&mut rd).unwrap();
    assert!(rd.is_empty());
    assert_eq!(format!("{:?}", back), expected);
}

#[test]
fn fit_pack_then_value_is_narrowest() {
    for v in [0u64, 127, 128, 255, 256, 65535, 65536, 1 << 32] {
        let mut w = vec![];
        msgpack::pack_from_u64(&mut w, v).unwrap();
        let mut rd: &[u8] = &w;
        let val = msgpack::unpack_value(&mut rd).unwrap();
        assert_eq!(val, Value::from(v));
        let mut again = vec![];
        msgpack::pack_value(&mut again, val).unwrap();
        assert_eq!(again, w);
    }
    for v in [-1i64, -32, -33, -128, -129, -32768, -32769, i64::MIN] {
        let mut w = vec![];
        msgpack::pack_from_i64(&mut w, v).unwrap();
        let mut rd: &[u8] = &w;
        let val = msgpack::unpack_value(&mut rd).unwrap();
        assert_eq!(val, Value::from(v));
        let mut again = vec![];
        msgpack::pack_value(&mut again, val).unwrap();
        assert_eq!(again, w);
    }
}

#[test]
fn fit_signed_non_negative_is_unsigned() {
    let mut w = vec![];
    msgpack::pack_from_i16(&mut w, 200).unwrap();
    assert_eq!(w, [0xcc, 0xc8]);
}

#[test]
fn ext_header_forms() {
    let mut w = vec![];
    msgpack::pack_ext_header(&mut w, 1, 16).unwrap();
    msgpack::pack_ext_header(&mut w, 1, 17).unwrap();
    msgpack::pack_ext_header(&mut w, 1, 256).unwrap();
    msgpack::pack_ext_header(&mut w, 1, 65536).unwrap();
    assert_eq!(
        w,
        [0xd8, 0x01, 0xc7, 0x11, 0x01, 0xc8, 0x01, 0x00, 0x01, 0xc9, 0x00, 0x01, 0x00, 0x00, 0x01]
    );
}

#[test]
fn negative_ext_value_is_refused() {
    let mut w = vec![];
    assert!(msgpack::pack_value(&mut w, Value::Extension(-3, vec![1])).is_err());
}

#[test]
fn truncated_input_is_eof() {
    let mut rd: &[u8] = &[0xcd, 0x01];
    assert_eq!(
        msgpack::unpack_u16(&mut rd),
        Err(UnpackError::InvalidData(DataError::UnexpectedEof))
    );
    let mut rd: &[u8] = &[0x92, 0x01];
    assert!(msgpack::unpack_value(&mut rd).is_err());
}

#[test]
fn code_table_round_trip() {
    for b in 0..=255u8 {
        let c = Code::from_u8(b);
        assert_eq!(c.to_u8(), b);
        assert_eq!(Code::from(b), c);
    }
    assert_eq!(Code::from_u8(0xc1), Code::Reserved);
    assert_eq!(Code::from_u8(0xe0), Code::NegInt(-32));
}

#[test]
fn text_with_invalid_utf8_is_invalid_data() {
    let mut rd: &[u8] = &[0xa2, 0xc3, 0x28];
    assert_eq!(
        msgpack::unpack_str(&mut rd),
        Err(UnpackError::InvalidData(DataError::InvalidUtf8))
    );
    let mut rd: &[u8] = &[0xa2, 0xc3, 0x28];
    assert_eq!(
        msgpack::unpack_str_ref(&mut rd),
        Err(UnpackError::InvalidData(DataError::InvalidUtf8))
    );
}

#[test]
fn timestamp_with_other_type_is_invalid() {
    let mut rd: &[u8] = &[0xd6, 0x05, 0x00, 0x00, 0x00, 0x01];
    assert_eq!(
        msgpack::unpack_timestamp32(&mut rd),
        Err(UnpackError::InvalidData(DataError::InvalidTimestamp))
    );
    let mut rd: &[u8] = &[0xd6, 0xff, 0x00, 0x00, 0x00, 0x01];
    assert_eq!(msgpack::unpack_timestamp32(&mut rd), Ok(1));
    let mut rd: &[u8] = &[0xd7, 0xff, 0x00, 0x00, 0x00, 0x04, 0x00, 0x00, 0x00, 0x01];
    assert_eq!(msgpack::unpack_timestamp64(&mut rd), Ok((1, 1)));
}

#[test]
fn timestamp_values_decode_from_ext() {
    let mut rd: &[u8] = &[0xd6, 0xff, 0x00, 0x00, 0x00, 0x01, 0xd4, 0xff, 0x07];
    assert_eq!(msgpack::unpack_value(&mut rd).unwrap(), Value::Timestamp(1, 0));
    assert_eq!(msgpack::unpack_value(&mut rd).unwrap(), Value::Extension(-1, vec![0x07]));
}

#[test]
fn short_ext_lengths_use_ext8() {
    let mut w = vec![];
    msgpack::pack_ext_header(&mut w, 2, 3).unwrap();
    msgpack::pack_ext_header(&mut w, 2, 0).unwrap();
    assert_eq!(w, [0xc7, 0x03, 0x02, 0xc7, 0x00, 0x02]);
    let mut w = vec![];
    msgpack::pack_value(&mut w, Value::Extension(2, vec![9, 9, 9])).unwrap();
    let mut rd: &[u8] = &w;
    assert_eq!(msgpack::unpack_value(&mut rd).unwrap(), Value::Extension(2, vec![9, 9, 9]));
}

#[test]
fn decoded_strings_are_text_exactly_when_valid() {
    let mut rd: &[u8] = &[0xa2, 0x68, 0x69, 0xa2, 0xc3, 0x28];
    match msgpack::unpack_value(&mut rd).unwrap() {
        Value::String(s) => assert!(s.is_str()),
        _ => panic!("must be string"),
    }
    match msgpack::unpack_value(&mut rd).unwrap() {
        Value::String(s) => assert!(s.is_err()),
        _ => panic!("must be string"),
    }
}

#[test]
fn truncated_tree_is_eof() {
    let mut rd: &[u8] = &[0x93, 0x01, 0xa3, 0x61];
    assert_eq!(
        msgpack::unpack_value(&mut rd),
        Err(UnpackError::InvalidData(DataError::UnexpectedEof))
    );
}
