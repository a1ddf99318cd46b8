use msgpack::unpack_ref;
use msgpack::Value;

#[test]
fn ref_value_test_unpack_str() {
    let v = vec![0xa5, 0x68, 0x65, 0x6c, 0x6c, 0x6f];
    let mut cur: &[u8] = v.as_ref();
    let ret = unpack_ref::unpack_str(&mut cur).unwrap();
    assert_eq!(ret.s, Ok("hello"));
}

#[test]
fn ref_value_test_unpack_bin() {
    let v = vec![0xc4, 0x03, 0x61, 0x61, 0x61];
    let mut cur: &[u8] = v.as_ref();
    let ret = unpack_ref::unpack_bin(&mut cur).unwrap();
    assert_eq!(ret, &[0x61, 0x61, 0x61]);
}

#[test]
fn test_unpack_str_data() {
    let v = vec![0x68, 0x65, 0x6c, 0x6c, 0x6f];
    let mut cur: &[u8] = v.as_ref();
    let ret = unpack_ref::unpack_str_data(&mut cur, 5).unwrap();
    assert_eq!(ret, "hello");
}

#[test]
fn value_to_ref_and_back() {
    let v = Value::Pairs(vec![
        (Value::from(1 as u8), Value::from("s".to_owned())),
        (Value::Binary(vec![1, 2]), Value::Array(vec![Value::Timestamp(-5, 7)])),
    ]);
    let r = v.to_ref();
    assert_eq!(r.to_owned(), v);
}

#[test]
fn integer_from_signed_is_canonical() {
    assert_eq!(Value::from(5 as i8), Value::from(5 as u8));
    assert_ne!(Value::from(-5 as i8), Value::from(5 as u8));
}

#[test]
fn utf8_string_api() {
    let s = msgpack::Utf8String::new("hi".to_owned());
    assert!(s.is_str());
    assert!(!s.is_err());
    assert_eq!(s.as_str(), Some("hi"));
    assert_eq!(s.as_slice(), b"hi");
    let raw = msgpack::value::utf8_string_from_bytes(vec![0xff, 0x61]);
    assert!(raw.is_err());
    assert_eq!(raw.as_slice(), &[0xff, 0x61]);
    assert_eq!(raw.as_str(), None);
    assert!(raw.as_ref().is_err());
    assert!(raw.into_err().is_some());
}
