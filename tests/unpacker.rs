use msgpack::{RefUnpacker, RefValue, Unpacker, Value, ValueUnpacker};

#[test]
fn unpacker_unpacker() {
    let data = vec![
        0xc0, 0xc2, 0x01, 0xff, 0x92, 0x01, 0x02, 0x81, 0x01, 0xa1, 0x73,
    ];
    let reader: &[u8] = &data;

    let mut unpacker = Unpacker::from_reader(reader);

    assert_eq!(unpacker.unpack_nil().unwrap(), None as Option<usize>);
    assert_eq!(unpacker.unpack_bool().unwrap(), false);
    assert_eq!(unpacker.unpack_u8().unwrap(), 1);
    assert_eq!(unpacker.unpack_i8().unwrap(), -1);

    let len = unpacker.unpack_ary_header().unwrap();
    assert_eq!(len, 2);
    assert_eq!(unpacker.unpack_u8().unwrap(), 1);
    assert_eq!(unpacker.unpack_u8().unwrap(), 2);

    let len = unpacker.unpack_map_header().unwrap();
    assert_eq!(len, 1);
    assert_eq!(unpacker.unpack_u8().unwrap(), 1);
    assert_eq!(unpacker.unpack_string().unwrap(), "s".to_owned());
}

#[test]
fn unpacker_unpacker_new_write_and_read() {
    let val = vec![
        0xc0, 0xc2, 0x01, 0xff, 0x92, 0x01, 0x02, 0x81, 0x01, 0xa1, 0x73,
    ];

    let mut unpacker = Unpacker::new();
    unpacker.write(val.as_ref()).unwrap();
    assert_eq!(unpacker.unpack_value().unwrap(), Value::Nil);
    assert_eq!(unpacker.unpack_value().unwrap(), Value::Boolean(false));
    assert_eq!(unpacker.unpack_value().unwrap(), Value::from(1 as u8));
    assert_eq!(unpacker.unpack_value().unwrap(), Value::from(-1 as i8));
    assert_eq!(
        unpacker.unpack_value().unwrap(),
        Value::Array(vec![Value::from(1 as u8), Value::from(2 as u8)])
    );
    assert_eq!(
        unpacker.unpack_value().unwrap(),
        Value::Pairs(vec![(Value::from(1 as u8), Value::from("s".to_owned()))])
    );
}

#[test]
fn unpacker_unpacker_new_long_write_and_read() {
    let val = vec![
        0xc0, 0xc2, 0x01, 0xff, 0x92, 0x01, 0x02, 0xc0, 0xc2, 0x01, 0xff, 0x92, 0x01, 0x02, 0xc0,
        0xc2, 0x01, 0xff, 0x92, 0x01, 0x02, 0xc0, 0xc2, 0x01, 0xff, 0x92, 0x01, 0x02, 0xc0, 0xc2,
        0x01, 0xff, 0x92, 0x01, 0x02,
    ];

    let mut unpacker = Unpacker::new();
    assert_eq!(unpacker.write(val.as_slice()).unwrap(), 35);
    for _ in 0..4 {
        assert_eq!(unpacker.unpack_value().unwrap(), Value::Nil);
        assert_eq!(unpacker.unpack_value().unwrap(), Value::Boolean(false));
        assert_eq!(unpacker.unpack_value().unwrap(), Value::from(1 as u8));
        assert_eq!(unpacker.unpack_value().unwrap(), Value::from(-1 as i8));
        assert_eq!(
            unpacker.unpack_value().unwrap(),
            Value::Array(vec![Value::from(1 as u8), Value::from(2 as u8)])
        );
    }
}

#[test]
fn unpacker_unpacker_iter() {
    let val = vec![0xc0, 0xc2, 0x01];
    let mut unpacker = Unpacker::new();

    unpacker.write(val.as_ref()).unwrap();
    let mut items = unpacker.iter();
    assert_eq!(items.next().unwrap(), Value::Nil);
    assert_eq!(items.next().unwrap(), Value::Boolean(false));
    assert_eq!(items.next().unwrap(), Value::from(1 as u8));

    unpacker.write(val.as_ref()).unwrap();
    let mut items = unpacker.iter();
    assert_eq!(items.next().unwrap(), Value::Nil);
    assert_eq!(items.next().unwrap(), Value::Boolean(false));
    assert_eq!(items.next().unwrap(), Value::from(1 as u8));
}

#[test]
fn unpacker_feed_ref_slice() {
    let val = vec![
        0xc0, 0xc2, 0x01, 0xff, 0x92, 0x01, 0x02, 0x81, 0x01, 0xa1, 0x73,
    ];
    let mut reader: &[u8] = val.as_ref();

    let mut items = RefUnpacker::feed(&mut reader);
    assert_eq!(items.next().unwrap(), RefValue::Nil);
    assert_eq!(items.next().unwrap(), RefValue::Boolean(false));
    assert_eq!(items.next().unwrap(), RefValue::from(1 as u8));
    assert_eq!(items.next().unwrap(), RefValue::from(-1 as i8));
    assert_eq!(
        items.next().unwrap(),
        RefValue::Array(vec![RefValue::from(1 as u8), RefValue::from(2 as u8)])
    );
    assert_eq!(
        items.next().unwrap(),
        RefValue::Pairs(vec![(RefValue::from(1 as u8), RefValue::from("s"))])
    );
}

#[test]
fn lib_unpacker_new_write_and_read() {
    let val = vec![
        0xc0, 0xc2, 0x01, 0xff, 0x92, 0x01, 0x02, 0x81, 0x01, 0xa1, 0x73,
    ];

    let mut unpacker = ValueUnpacker::new();
    unpacker.write(val.as_ref()).unwrap();
    assert_eq!(unpacker.unpack_value().unwrap(), Value::Nil);
    assert_eq!(unpacker.unpack_value().unwrap(), Value::Boolean(false));
    assert_eq!(unpacker.unpack_value().unwrap(), Value::from(1 as u8));
    assert_eq!(unpacker.unpack_value().unwrap(), Value::from(-1 as i8));
    assert_eq!(
        unpacker.unpack_value().unwrap(),
        Value::Array(vec![Value::from(1 as u8), Value::from(2 as u8)])
    );
    assert_eq!(
        unpacker.unpack_value().unwrap(),
        Value::Pairs(vec![(Value::from(1 as u8), Value::from("s".to_owned()))])
    );
}

#[test]
fn lib_unpacker_new_long_write_and_read() {
    let val = vec![
        0xc0, 0xc2, 0x01, 0xff, 0x92, 0x01, 0x02, 0xc0, 0xc2, 0x01, 0xff, 0x92, 0x01, 0x02, 0xc0,
        0xc2, 0x01, 0xff, 0x92, 0x01, 0x02, 0xc0, 0xc2, 0x01, 0xff, 0x92, 0x01, 0x02, 0xc0, 0xc2,
        0x01, 0xff, 0x92, 0x01, 0x02,
    ];

    let mut unpacker = ValueUnpacker::new();
    assert_eq!(unpacker.write(val.as_slice()).unwrap(), 35);
    for _ in 0..4 {
        assert_eq!(unpacker.unpack_value().unwrap(), Value::Nil);
        assert_eq!(unpacker.unpack_value().unwrap(), Value::Boolean(false));
        assert_eq!(unpacker.unpack_value().unwrap(), Value::from(1 as u8));
        assert_eq!(unpacker.unpack_value().unwrap(), Value::from(-1 as i8));
        assert_eq!(
            unpacker.unpack_value().unwrap(),
            Value::Array(vec![Value::from(1 as u8), Value::from(2 as u8)])
        );
    }
}

#[test]
fn lib_unpacker_iter() {
    let val = vec![0xc0, 0xc2, 0x01];
    let mut unpacker = ValueUnpacker::new();

    unpacker.write(val.as_ref()).unwrap();
    let mut items = unpacker.iter();
    assert_eq!(items.next().unwrap(), Value::Nil);
    assert_eq!(items.next().unwrap(), Value::Boolean(false));
    assert_eq!(items.next().unwrap(), Value::from(1 as u8));

    unpacker.write(val.as_ref()).unwrap();
    let mut items = unpacker.iter();
    assert_eq!(items.next().unwrap(), Value::Nil);
    assert_eq!(items.next().unwrap(), Value::Boolean(false));
    assert_eq!(items.next().unwrap(), Value::from(1 as u8));
}

#[test]
fn lib_feed_ref_slice() {
    let val = vec![
        0xc0, 0xc2, 0x01, 0xff, 0x92, 0x01, 0x02, 0x81, 0x01, 0xa1, 0x73,
    ];
    let mut reader: &[u8] = val.as_ref();

    let mut items = RefUnpacker::feed(&mut reader);
    assert_eq!(items.next().unwrap(), RefValue::Nil);
    assert_eq!(items.next().unwrap(), RefValue::Boolean(false));
    assert_eq!(items.next().unwrap(), RefValue::from(1 as u8));
    assert_eq!(items.next().unwrap(), RefValue::from(-1 as i8));
    assert_eq!(
        items.next().unwrap(),
        RefValue::Array(vec![RefValue::from(1 as u8), RefValue::from(2 as u8)])
    );
    assert_eq!(
        items.next().unwrap(),
        RefValue::Pairs(vec![(RefValue::from(1 as u8), RefValue::from("s"))])
    );
}

#[test]
fn packer_unpacker() {
    let mut packer = msgpack::Packer::new(vec![]);

    packer.pack_nil().unwrap();
    packer.pack_bool(false).unwrap();
    packer.pack_uint(1).unwrap();
    packer.pack_int(-1).unwrap();

    packer.pack_array_header(2).unwrap();
    packer.pack_uint(1).unwrap();
    packer.pack_uint(2).unwrap();

    packer.pack_map_header(1).unwrap();
    packer.pack_uint(1).unwrap();
    packer.pack_str("s").unwrap();

    let buf = packer.into_inner();
    let reader: &[u8] = &buf;
    let mut unpacker = Unpacker::from_reader(reader);

    assert_eq!(unpacker.unpack_nil().unwrap(), None as Option<usize>);
    assert_eq!(unpacker.unpack_bool().unwrap(), false);
    assert_eq!(unpacker.unpack_u8().unwrap(), 1);
    assert_eq!(unpacker.unpack_i8().unwrap(), -1);

    let len = unpacker.unpack_array_header().unwrap();
    assert_eq!(len, 2);
    assert_eq!(unpacker.unpack_u8().unwrap(), 1);
    assert_eq!(unpacker.unpack_u8().unwrap(), 2);

    let len = unpacker.unpack_map_header().unwrap();
    assert_eq!(len, 1);
    assert_eq!(unpacker.unpack_u8().unwrap(), 1);
    assert_eq!(unpacker.unpack_string().unwrap(), "s".to_owned());
}

#[test]
fn feed_split_value_arrives_whole() {
    // An array whose bytes come in three writes: nothing is yielded until the
    // last byte is there, then the value once.
    let mut unpacker = Unpacker::new();
    unpacker.write(&[0x92]).unwrap();
    assert!(unpacker.unpack_value().is_err());
    unpacker.write(&[0x01]).unwrap();
    assert!(unpacker.iter().next().is_none());
    unpacker.write(&[0x02, 0xc0]).unwrap();
    let mut items = unpacker.iter();
    assert_eq!(
        items.next().unwrap(),
        Value::Array(vec![Value::from(1 as u8), Value::from(2 as u8)])
    );
    assert_eq!(items.next().unwrap(), Value::Nil);
    assert!(items.next().is_none());
}

#[test]
fn packer() {
    let mut packer = msgpack::Packer::new(vec![]);

    packer.pack_nil().unwrap();
    packer.pack_bool(false).unwrap();
    packer.pack_uint(1).unwrap();
    packer.pack_int(-1).unwrap();

    packer.pack_array_header(2).unwrap();
    packer.pack_uint(1).unwrap();
    packer.pack_uint(2).unwrap();

    packer.pack_map_header(1).unwrap();
    packer.pack_uint(1).unwrap();
    packer.pack_str("s").unwrap();

    let writer = packer.into_inner();
    assert_eq!(
        writer,
        &[0xc0, 0xc2, 0x01, 0xff, 0x92, 0x01, 0x02, 0x81, 0x01, 0xa1, 0x73]
    );
}

#[test]
fn packer_get_mut_and_payload() {
    let mut packer = msgpack::Packer::new(vec![0x01]);
    packer.get_mut().push(0x02);
    packer.pack_ext_header(5, 2).unwrap();
    packer.write_payload(&[0xaa, 0xbb]).unwrap();
    packer.flush().unwrap();
    assert_eq!(packer.get_ref(), &vec![0x01, 0x02, 0xd5, 0x05, 0xaa, 0xbb]);
}

#[test]
fn feed_mode_typed_reads() {
    let mut unpacker = Unpacker::new();
    unpacker.write(&[0xc0, 0xc2, 0x01, 0xff, 0x92, 0x01, 0x02, 0x81, 0x01, 0xa1, 0x73]).unwrap();
    assert_eq!(unpacker.unpack_nil().unwrap(), None as Option<usize>);
    assert_eq!(unpacker.unpack_bool().unwrap(), false);
    assert_eq!(unpacker.unpack_u8().unwrap(), 1);
    assert_eq!(unpacker.unpack_i8().unwrap(), -1);
    assert_eq!(unpacker.unpack_ary_header().unwrap(), 2);
    assert_eq!(unpacker.unpack_u8().unwrap(), 1);
    assert_eq!(unpacker.unpack_u8().unwrap(), 2);
    assert_eq!(unpacker.unpack_map_header().unwrap(), 1);
    assert_eq!(unpacker.unpack_u8().unwrap(), 1);
    assert_eq!(unpacker.unpack_string().unwrap(), "s".to_owned());
    assert_eq!(
        unpacker.unpack_u8(),
        Err(msgpack::UnpackError::InvalidData(msgpack::DataError::UnexpectedEof))
    );
}

#[test]
fn feed_mode_empty_is_eof() {
    let mut unpacker = Unpacker::new();
    assert_eq!(
        unpacker.unpack_value(),
        Err(msgpack::UnpackError::InvalidData(msgpack::DataError::UnexpectedEof))
    );
    let mut v = ValueUnpacker::new();
    assert_eq!(
        v.unpack_value(),
        Err(msgpack::UnpackError::InvalidData(msgpack::DataError::UnexpectedEof))
    );
}

#[test]
fn slice_cursor_reads_by_position() {
    let data = [0xcd, 0x01, 0x00, 0xa2, 0x68, 0x69];
    let mut cur = msgpack::SliceCursor::new(&data);
    assert_eq!(msgpack::unpack_u16(&mut cur).unwrap(), 256);
    assert_eq!(cur.position(), 3);
    assert_eq!(msgpack::unpack_str_ref(&mut cur).unwrap(), "hi");
    assert_eq!(cur.position(), 6);
    assert_eq!(cur.get_ref(), &data[..]);
    assert!(msgpack::unpack_value(&mut cur).is_err());
}
