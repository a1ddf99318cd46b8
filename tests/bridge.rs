use msgpack::ser::EXT_TOKEN;
use msgpack::{Compound, Deserializer, Ext, ExtField, ExtType, Route, Serializer, Timestamp};

#[test]
fn ser_ser_bool() {
    let mut se = Serializer::new(vec![]);
    se.serialize_bool(true).unwrap();
    se.serialize_bool(false).unwrap();
    assert_eq!([0xc3, 0xc2], se.into_inner()[..]);
}

#[test]
fn ser_ser_option() {
    let mut se = Serializer::new(vec![]);
    se.serialize_none().unwrap();
    se.serialize_u8(1).unwrap();
    assert_eq!([0xc0, 0x01], se.into_inner()[..]);
}

#[test]
fn ser_ser_u8() {
    let mut se = Serializer::new(vec![]);
    for v in [1u8, 127, 128, 255] {
        se.serialize_u8(v).unwrap();
    }
    assert_eq!([0x01, 0x7f, 0xcc, 0x80, 0xcc, 0xff], se.into_inner()[..]);
}

#[test]
fn ser_ser_str() {
    let mut se = Serializer::new(vec![]);
    se.serialize_str("aaa").unwrap();
    assert_eq!([0xa3, 0x61, 0x61, 0x61], se.into_inner()[..]);
}

#[test]
fn ser_ser_string() {
    let mut se = Serializer::new(vec![]);
    let msg = "aaa".to_string();
    se.serialize_str(&msg).unwrap();
    assert_eq!([0xa3, 0x61, 0x61, 0x61], se.into_inner()[..]);
}

#[test]
fn ser_ser_array() {
    let mut se = Serializer::new(vec![]);
    se.serialize_seq(Some(3)).unwrap();
    for v in [1u8, 2, 3] {
        se.serialize_u8(v).unwrap();
    }
    assert_eq!([0x93, 0x01, 0x02, 0x03], se.into_inner()[..]);
}

#[test]
fn ser_unsized_seq_is_refused() {
    let mut se = Serializer::new(vec![]);
    assert!(matches!(se.serialize_seq(None), Err(msgpack::SerError::MustHaveLength)));
    assert!(matches!(se.serialize_map(None), Err(msgpack::SerError::MustHaveLength)));
    assert!(se.into_inner().is_empty());
}

#[test]
fn ser_ser_unit_struct() {
    let mut se = Serializer::new(vec![]);
    se.serialize_unit_struct("TestA").unwrap();
    assert_eq!([0x90], se.into_inner()[..]);
}

#[test]
fn ser_ser_unit_variant() {
    let mut se = Serializer::new(vec![]);
    se.serialize_unit_variant("TestEnum", 0, "A").unwrap();
    assert_eq!([0x81, 0xa1, 0x41, 0xc0], se.into_inner()[..]);
}

#[test]
fn ser_ser_newtype_struct() {
    let mut se = Serializer::new(vec![]);
    se.serialize_u8(10).unwrap();
    assert_eq!([0x0a], se.into_inner()[..]);
}

#[test]
fn ser_ser_newtype_variant() {
    let mut se = Serializer::new(vec![]);
    se.serialize_newtype_variant("TestEnum2", 0, "A").unwrap();
    se.serialize_u8(10).unwrap();
    assert_eq!([0x81, 0xa1, 0x41, 0x0a], se.into_inner()[..]);
}

#[test]
fn ser_ser_tuple() {
    let mut se = Serializer::new(vec![]);
    se.serialize_tuple(3).unwrap();
    for v in [1u8, 2, 3] {
        se.serialize_u8(v).unwrap();
    }
    assert_eq!([0x93, 0x01, 0x02, 0x03], se.into_inner()[..]);
}

#[test]
fn ser_ser_tuple_struct() {
    let mut se = Serializer::new(vec![]);
    let c = se.serialize_tuple_struct("TestStructC", 2).unwrap();
    assert!(matches!(c, Compound::Normal));
    se.serialize_u8(1).unwrap();
    se.serialize_u8(2).unwrap();
    assert_eq!([0x92, 0x01, 0x02], se.into_inner()[..]);
}

#[test]
fn ser_ser_tuple_variant() {
    let mut se = Serializer::new(vec![]);
    se.serialize_tuple_variant("TestEnumC", 0, "A", 2).unwrap();
    se.serialize_u8(1).unwrap();
    se.serialize_u8(2).unwrap();
    assert_eq!([0x81, 0xa1, 0x41, 0x92, 0x01, 0x02], se.into_inner()[..]);
}

#[test]
fn ser_ser_struct() {
    let mut se = Serializer::new(vec![]);
    se.serialize_struct("TestStructD", 1).unwrap();
    se.serialize_field_name("a").unwrap();
    se.serialize_u8(10).unwrap();
    assert_eq!([0x81, 0xa1, 0x61, 0x0a], se.into_inner()[..]);
}

#[test]
fn ser_ser_struct_variant() {
    let mut se = Serializer::new(vec![]);
    se.serialize_struct_variant("TestEnumD", 0, "A", 1).unwrap();
    se.serialize_field_name("a").unwrap();
    se.serialize_u8(10).unwrap();
    assert_eq!([0x81, 0xa1, 0x41, 0x81, 0xa1, 0x61, 0x0a], se.into_inner()[..]);
}

#[test]
fn bridge_struct_h_o() {
    let mut se = Serializer::new(vec![]);
    se.serialize_struct("Point", 2).unwrap();
    se.serialize_field_name("h").unwrap();
    se.serialize_u8(1).unwrap();
    se.serialize_field_name("o").unwrap();
    se.serialize_str("o").unwrap();
    assert_eq!([0x82, 0xa1, 0x68, 0x01, 0xa1, 0x6f, 0xa1, 0x6f], se.into_inner()[..]);
}

#[test]
fn ext_token_writes_raw_fields() {
    let mut se = Serializer::new(vec![]);
    let c = se.serialize_tuple_struct(EXT_TOKEN, 0).unwrap();
    let mut ext = match c {
        Compound::Ext(e) => e,
        Compound::Normal => panic!("the ext token must switch to raw fields"),
    };
    se.ext_field(&mut ext, ExtField::U8(0xd4)).unwrap();
    se.ext_field(&mut ext, ExtField::I8(5)).unwrap();
    se.ext_field(&mut ext, ExtField::Bytes(&[0x07])).unwrap();
    assert!(matches!(
        se.ext_field(&mut ext, ExtField::Other("str")),
        Err(msgpack::SerError::InvalidSerializeMethod("str"))
    ));
    assert_eq!([0xd4, 0x05, 0x07], se.into_inner()[..]);
}

#[test]
fn de_de_bool() {
    let buf = [0xc3, 0xc2];
    let mut de = Deserializer::new(&buf[..]);
    assert_eq!(de.route().unwrap(), Route::Bool);
    assert_eq!(true, msgpack::unpack_bool(&mut de).unwrap());
    assert_eq!(de.route().unwrap(), Route::Bool);
    assert_eq!(false, msgpack::unpack_bool(&mut de).unwrap());
}

#[test]
fn de_de_option() {
    let buf = [0xc0, 0x01];
    let mut de = Deserializer::new(&buf[..]);
    assert_eq!(de.is_none().unwrap(), true);
    assert_eq!(de.is_none().unwrap(), false);
    assert_eq!(Some(1u8), Some(msgpack::unpack_u8(&mut de).unwrap()));
}

#[test]
fn de_de_u8() {
    let buf = [0x01, 0x7f, 0xcc, 0x80, 0xcc, 0xff];
    let mut de = Deserializer::new(&buf[..]);
    for expected in [1u8, 127, 128, 255] {
        assert_eq!(de.route().unwrap(), Route::U8);
        assert_eq!(expected, msgpack::unpack_u8(&mut de).unwrap());
    }
}

#[test]
fn de_de_u32() {
    let buf = [0xce, 0x00, 0x01, 0x00, 0x00, 0xce, 0xff, 0xff, 0xff, 0xff];
    let mut de = Deserializer::new(&buf[..]);
    assert_eq!(65536 as u32, msgpack::unpack_u32(&mut de).unwrap());
    assert_eq!(4294967295 as u32, msgpack::unpack_u32(&mut de).unwrap());
}

#[test]
fn unpack_seq() {
    let buf = [0x92, 0x01, 0x02];
    let mut de = Deserializer::new(&buf[..]);
    assert_eq!(de.route().unwrap(), Route::Array);
    let n = msgpack::unpack_array_header(&mut de).unwrap();
    let mut v2: Vec<u8> = vec![];
    for _ in 0..n {
        v2.push(msgpack::unpack_u8(&mut de).unwrap());
    }
    assert_eq!(vec![1, 2], v2);
}

#[test]
fn unpack_tuple() {
    let buf = [0x92, 0x01, 0x02];
    let mut de = Deserializer::new(&buf[..]);
    let n = msgpack::unpack_array_header(&mut de).unwrap();
    msgpack::de::check_tuple_len(2, n).unwrap();
    let ret = (msgpack::unpack_u8(&mut de).unwrap(), msgpack::unpack_u8(&mut de).unwrap());
    assert_eq!((1, 2), ret);
    assert!(matches!(msgpack::de::check_tuple_len(3, n), Err(msgpack::DeError::InvalidSize)));
}

#[test]
fn unpack_string() {
    let buf = [0xa5, 0x68, 0x65, 0x6c, 0x6c, 0x6f];
    let mut de = Deserializer::new(&buf[..]);
    assert_eq!(de.route().unwrap(), Route::Str);
    let ret: String = msgpack::unpack_str(&mut de).unwrap();
    assert_eq!("hello".to_string(), ret);
}

#[test]
fn de_unpack_str() {
    let buf = [0xa5, 0x68, 0x65, 0x6c, 0x6c, 0x6f];
    let mut de = Deserializer::new(&buf[..]);
    let ret: &str = msgpack::unpack_str_ref(&mut de).unwrap();
    assert_eq!("hello", ret);
}

#[test]
fn unpack_struct() {
    let buf = [0x82, 0xa1, 0x68, 0x01, 0xa1, 0x6f, 0xa1, 0x6f];
    let mut de = Deserializer::new(&buf[..]);
    assert_eq!(de.route().unwrap(), Route::Pairs);
    assert_eq!(msgpack::unpack_map_header(&mut de).unwrap(), 2);
    assert_eq!(msgpack::unpack_str(&mut de).unwrap(), "h");
    assert_eq!(msgpack::unpack_u8(&mut de).unwrap(), 1);
    assert_eq!(msgpack::unpack_str(&mut de).unwrap(), "o");
    assert_eq!(msgpack::unpack_str(&mut de).unwrap(), "o");
}

#[test]
fn reserved_code_has_no_route() {
    let buf = [0xc1];
    let mut de = Deserializer::new(&buf[..]);
    assert!(de.route().is_err());
}

#[test]
fn ext8_deserialize() {
    let buf = [0xd7, 0xff, 0x07, 0xff, 0xff, 0xfc, 0x5d, 0x87, 0x3d, 0x44];
    let mut rd: &[u8] = &buf;
    let (len, typ) = msgpack::unpack_ext_header(&mut rd).unwrap();
    let ext_type = ExtType::from_code(buf[0], len).unwrap();
    let v = Ext::fixext8(typ, msgpack::unpack_data_ref(&mut rd, len as usize).unwrap());
    assert_eq!(ExtType::FixExt8, v.ext_type());
    assert_eq!(ExtType::FixExt8, ext_type);
    assert_eq!(-1, v.typ());
    assert_eq!(vec![0x07, 0xff, 0xff, 0xfc, 0x5d, 0x87, 0x3d, 0x44], v.data());
}

#[test]
fn timestamp_deserialize() {
    let buf = [0xd7, 0xff, 0x07, 0xff, 0xff, 0xfc, 0x5d, 0x87, 0x3d, 0x44];
    let v = Ext::fixext8(-1, &buf[2..]);
    assert_eq!(Timestamp(1569144132, 33554431), Timestamp::from_ext(&v).unwrap());
}

#[test]
fn timestamp_to_ext() {
    let t = Timestamp(1569144132, 33554431);
    let v = Ext::from_timestamp(&t);

    assert_eq!(ExtType::FixExt8, v.ext_type());
    assert_eq!(-1, v.typ());
    assert_eq!(vec![0x07, 0xff, 0xff, 0xfc, 0x5d, 0x87, 0x3d, 0x44], v.data());
}

#[test]
fn timestamp_serizlize() {
    let mut writer = vec![];
    let t = Timestamp(1569144132, 33554431);
    Ext::from_timestamp(&t).pack(&mut writer);
    assert_eq!(
        vec![0xd7, 0xff, 0x07, 0xff, 0xff, 0xfc, 0x5d, 0x87, 0x3d, 0x44],
        writer,
    );
}
