//! Decoding of whole value trees, owned. `parse_value` states what a tree
//! of bytes stands for; `unpack_value` decodes exactly that.
use crate::code::{classify, lemma_classify_inverse, Code, EXT8, FIXEXT4, FIXEXT8, RESERVED};
use crate::error::{eof, UnpackError};
use crate::primitive::{
    be_value, lemma_be_value_bound, lemma_pow256_values, read_data_f32,
    read_data_f64, read_data_i16, read_data_i32, read_data_i64, read_data_i8, read_data_u16,
    read_data_u32, read_data_u64, read_data_u8, signed_of,
};
use crate::read::{
    advanced, lemma_advanced_no_reserved, lemma_advanced_none, lemma_advanced_take,
    lemma_advanced_trans, no_reserved, BufferedRead,
};
use crate::unpack::{
    after_code, read_code, read_len, reserved, spec_data, tag_at, unpack_data,
    unpack_ext_type_data,
};
use crate::unpack_ext::{split_timestamp64, ts64_nsec, ts64_sec};
use crate::value::{
    int_of, pairs_model, pairs_strings_wf, strings_wf, utf8_string_from_bytes, values_model,
    values_strings_wf, Float, FloatNumber, Integer,
    Utf8String, Value, ValueModel,
};
use vstd::prelude::*;

verus! {

broadcast use {
    lemma_advanced_trans,
    lemma_advanced_none,
    lemma_advanced_take,
    lemma_advanced_no_reserved,
};

/// A scalar whose `n` payload bytes follow the code.
pub open spec fn scalar(s: Seq<u8>, n: int, m: ValueModel) -> Option<(ValueModel, int)> {
    if s.len() < 1 + n {
        None
    } else {
        Some((m, 1 + n))
    }
}

/// `n` raw bytes that start at index `h`.
pub open spec fn raw_at(s: Seq<u8>, h: int, n: int) -> Option<(Seq<u8>, int)> {
    if h < 0 || n < 0 || s.len() < h + n {
        None
    } else {
        Some((s.subrange(h, h + n), h + n))
    }
}

pub open spec fn str_at(s: Seq<u8>, h: int, n: int) -> Option<(ValueModel, int)> {
    match raw_at(s, h, n) {
        Some((b, k)) => Some((ValueModel::String(b), k)),
        None => None,
    }
}

pub open spec fn bin_at(s: Seq<u8>, h: int, n: int) -> Option<(ValueModel, int)> {
    match raw_at(s, h, n) {
        Some((b, k)) => Some((ValueModel::Binary(b), k)),
        None => None,
    }
}

/// What an extension with code `c`, type `t` and payload `d` stands for:
/// type -1 in the three timestamp shapes is a timestamp; anything else stays
/// an extension.
pub open spec fn ext_model(c: u8, t: i8, d: Seq<u8>) -> ValueModel {
    if t == -1 && c == FIXEXT4 && d.len() == 4 {
        ValueModel::Timestamp(be_value(d) as i64, 0)
    } else if t == -1 && c == FIXEXT8 && d.len() == 8 {
        ValueModel::Timestamp(ts64_sec(be_value(d)) as i64, ts64_nsec(be_value(d)) as u32)
    } else if t == -1 && c == EXT8 && d.len() == 12 {
        ValueModel::Timestamp(
            signed_of(be_value(d.skip(4)), 8) as i64,
            be_value(d.take(4)) as u32,
        )
    } else {
        ValueModel::Extension(t, d)
    }
}

/// An extension whose type byte stands at index `h`, followed by `n`
/// payload bytes.
pub open spec fn ext_at(s: Seq<u8>, c: u8, h: int, n: int) -> Option<(ValueModel, int)> {
    if h < 0 || n < 0 || s.len() < h + 1 + n {
        None
    } else {
        Some((ext_model(c, tag_at(s, h), s.subrange(h + 1, h + 1 + n)), h + 1 + n))
    }
}

pub open spec fn wrap_array(r: Option<(Seq<ValueModel>, int)>, h: int) -> Option<(ValueModel, int)> {
    match r {
        Some((vs, k)) => Some((ValueModel::Array(vs), h + k)),
        None => None,
    }
}

pub open spec fn wrap_pairs(r: Option<(Seq<(ValueModel, ValueModel)>, int)>, h: int) -> Option<
    (ValueModel, int),
> {
    match r {
        Some((ps, k)) => Some((ValueModel::Pairs(ps), h + k)),
        None => None,
    }
}

pub open spec fn int_model(v: int) -> ValueModel {
    ValueModel::Integer(int_of(v))
}

/// The value at the front of `s` and the number of bytes it takes, or
/// `None` when the bytes do not hold a whole value.
pub open spec fn parse_value(s: Seq<u8>) -> Option<(ValueModel, int)>
    decreases s.len(), 0int, 0int,
{
    if s.len() == 0 {
        None
    } else {
        match classify(s[0]) {
            Code::Nil => Some((ValueModel::Nil, 1)),
            Code::True => Some((ValueModel::Boolean(true), 1)),
            Code::False => Some((ValueModel::Boolean(false), 1)),
            Code::PosInt(v) => Some((int_model(v as int), 1)),
            Code::NegInt(v) => Some((int_model(v as int), 1)),
            Code::Uint8 => scalar(s, 1, int_model(after_code(s, 1) as int)),
            Code::Uint16 => scalar(s, 2, int_model(after_code(s, 2) as int)),
            Code::Uint32 => scalar(s, 4, int_model(after_code(s, 4) as int)),
            Code::Uint64 => scalar(s, 8, int_model(after_code(s, 8) as int)),
            Code::Int8 => scalar(s, 1, int_model(signed_of(after_code(s, 1), 1))),
            Code::Int16 => scalar(s, 2, int_model(signed_of(after_code(s, 2), 2))),
            Code::Int32 => scalar(s, 4, int_model(signed_of(after_code(s, 4), 4))),
            Code::Int64 => scalar(s, 8, int_model(signed_of(after_code(s, 8), 8))),
            Code::Float32 => scalar(
                s,
                4,
                ValueModel::Float(Float { n: FloatNumber::Float32(after_code(s, 4) as u32) }),
            ),
            Code::Float64 => scalar(
                s,
                8,
                ValueModel::Float(Float { n: FloatNumber::Float64(after_code(s, 8) as u64) }),
            ),
            Code::FixStr(n) => str_at(s, 1, n as int),
            Code::Str8 => if s.len() < 2 {
                None
            } else {
                str_at(s, 2, after_code(s, 1) as int)
            },
            Code::Str16 => if s.len() < 3 {
                None
            } else {
                str_at(s, 3, after_code(s, 2) as int)
            },
            Code::Str32 => if s.len() < 5 {
                None
            } else {
                str_at(s, 5, after_code(s, 4) as int)
            },
            Code::Bin8 => if s.len() < 2 {
                None
            } else {
                bin_at(s, 2, after_code(s, 1) as int)
            },
            Code::Bin16 => if s.len() < 3 {
                None
            } else {
                bin_at(s, 3, after_code(s, 2) as int)
            },
            Code::Bin32 => if s.len() < 5 {
                None
            } else {
                bin_at(s, 5, after_code(s, 4) as int)
            },
            Code::FixArray(n) => wrap_array(parse_values(s.skip(1), n as nat), 1),
            Code::Array16 => if s.len() < 3 {
                None
            } else {
                wrap_array(parse_values(s.skip(3), after_code(s, 2)), 3)
            },
            Code::Array32 => if s.len() < 5 {
                None
            } else {
                wrap_array(parse_values(s.skip(5), after_code(s, 4)), 5)
            },
            Code::FixMap(n) => wrap_pairs(parse_pairs(s.skip(1), n as nat), 1),
            Code::Map16 => if s.len() < 3 {
                None
            } else {
                wrap_pairs(parse_pairs(s.skip(3), after_code(s, 2)), 3)
            },
            Code::Map32 => if s.len() < 5 {
                None
            } else {
                wrap_pairs(parse_pairs(s.skip(5), after_code(s, 4)), 5)
            },
            Code::FixExt1 => ext_at(s, s[0], 1, 1),
            Code::FixExt2 => ext_at(s, s[0], 1, 2),
            Code::FixExt4 => ext_at(s, s[0], 1, 4),
            Code::FixExt8 => ext_at(s, s[0], 1, 8),
            Code::FixExt16 => ext_at(s, s[0], 1, 16),
            Code::Ext8 => if s.len() < 2 {
                None
            } else {
                ext_at(s, s[0], 2, after_code(s, 1) as int)
            },
            Code::Ext16 => if s.len() < 3 {
                None
            } else {
                ext_at(s, s[0], 3, after_code(s, 2) as int)
            },
            Code::Ext32 => if s.len() < 5 {
                None
            } else {
                ext_at(s, s[0], 5, after_code(s, 4) as int)
            },
            Code::Reserved => None,
        }
    }
}

/// `n` values one after another at the front of `s`, and the bytes they
/// take.
pub open spec fn parse_values(s: Seq<u8>, n: nat) -> Option<(Seq<ValueModel>, int)>
    decreases s.len(), 1int, n,
{
    if n == 0 {
        Some((seq![], 0))
    } else {
        match parse_values(s, (n - 1) as nat) {
            None => None,
            Some((vs, k)) => if k < 0 || k > s.len() {
                None
            } else {
                match parse_value(s.skip(k)) {
                    None => None,
                    Some((v, k2)) => Some((vs.push(v), k + k2)),
                }
            },
        }
    }
}

/// `n` key-value pairs at the front of `s`, and the bytes they take.
pub open spec fn parse_pairs(s: Seq<u8>, n: nat) -> Option<(Seq<(ValueModel, ValueModel)>, int)>
    decreases s.len(), 1int, n,
{
    if n == 0 {
        Some((seq![], 0))
    } else {
        match parse_pairs(s, (n - 1) as nat) {
            None => None,
            Some((ps, k)) => if k < 0 || k > s.len() {
                None
            } else {
                match parse_value(s.skip(k)) {
                    None => None,
                    Some((key, k1)) => if k1 < 0 || k + k1 > s.len() {
                        None
                    } else {
                        match parse_value(s.skip(k + k1)) {
                            None => None,
                            Some((val, k2)) => Some((ps.push((key, val)), k + k1 + k2)),
                        }
                    },
                }
            },
        }
    }
}

/// The length field after the code is below its width's bound.
pub proof fn lemma_after_code_bounds(s: Seq<u8>)
    ensures
        s.len() >= 2 ==> after_code(s, 1) < 0x100,
        s.len() >= 3 ==> after_code(s, 2) < 0x1_0000,
        s.len() >= 5 ==> after_code(s, 4) < 0x1_0000_0000,
        s.len() >= 9 ==> after_code(s, 8) < 0x1_0000_0000_0000_0000,
{
    lemma_pow256_values();
    if s.len() >= 2 {
        lemma_be_value_bound(s.skip(1).take(1));
    }
    if s.len() >= 3 {
        lemma_be_value_bound(s.skip(1).take(2));
    }
    if s.len() >= 5 {
        lemma_be_value_bound(s.skip(1).take(4));
    }
    if s.len() >= 9 {
        lemma_be_value_bound(s.skip(1).take(8));
    }
}

/// Once `i` values fail to parse, no longer run of values parses.
pub proof fn lemma_parse_values_none(s: Seq<u8>, i: nat, n: nat)
    requires
        parse_values(s, i) is None,
        i <= n,
    ensures
        parse_values(s, n) is None,
    decreases n - i,
{
    if i < n {
        lemma_parse_values_none(s, i + 1, n);
    }
}

pub proof fn lemma_parse_pairs_none(s: Seq<u8>, i: nat, n: nat)
    requires
        parse_pairs(s, i) is None,
        i <= n,
    ensures
        parse_pairs(s, n) is None,
    decreases n - i,
{
    if i < n {
        lemma_parse_pairs_none(s, i + 1, n);
    }
}

/// The value an extension stands for, given its code byte, type and payload.
pub fn ext_value(c: u8, ty: i8, data: Vec<u8>) -> (r: Value)
    ensures
        r@ == ext_model(c, ty, data@),
        strings_wf(r),
{
    if ty == -1 && c == FIXEXT4 && data.len() == 4 {
        let mut rd: &[u8] = data.as_slice();
        proof {
            assert(data@.take(4) =~= data@);
            lemma_pow256_values();
            lemma_be_value_bound(data@);
        }
        match read_data_u32(&mut rd) {
            Ok(sec) => Value::Timestamp(sec as i64, 0),
            Err(_) => Value::Extension(ty, data),
        }
    } else if ty == -1 && c == FIXEXT8 && data.len() == 8 {
        let mut rd: &[u8] = data.as_slice();
        proof {
            assert(data@.take(8) =~= data@);
            lemma_pow256_values();
            lemma_be_value_bound(data@);
        }
        match read_data_u64(&mut rd) {
            Ok(raw) => {
                let (sec, nsec) = split_timestamp64(raw);
                Value::Timestamp(sec as i64, nsec)
            },
            Err(_) => Value::Extension(ty, data),
        }
    } else if ty == -1 && c == EXT8 && data.len() == 12 {
        let mut rd: &[u8] = data.as_slice();
        let ghost d = data@;
        proof {
            assert(d.skip(4).take(8) =~= d.skip(4));
            lemma_pow256_values();
            lemma_be_value_bound(d.take(4));
        }
        let nsec = read_data_u32(&mut rd);
        let sec = read_data_i64(&mut rd);
        match (sec, nsec) {
            (Ok(sec), Ok(nsec)) => Value::Timestamp(sec, nsec),
            _ => Value::Extension(ty, data),
        }
    } else {
        Value::Extension(ty, data)
    }
}

/// A string payload of `len` bytes, validated as UTF-8; invalid bytes are
/// kept as they are.
pub fn unpack_str_data<'a, R: BufferedRead<'a>>(reader: &mut R, len: usize) -> (r: Result<
    Utf8String,
    UnpackError,
>)
    ensures
        spec_data(old(reader).remaining(), len as int) matches (Ok(b), n) ==> (r matches Ok(u)
            && u.bytes() == b && u.wf()) && advanced(old(reader).remaining(), final(reader).remaining(), n),
        spec_data(old(reader).remaining(), len as int) matches (Err(e), n) ==> r == Err::<
            Utf8String,
            UnpackError,
        >(e) && advanced(old(reader).remaining(), final(reader).remaining(), n),
{
    let buf = unpack_data(reader, len)?;
    Ok(utf8_string_from_bytes(buf))
}

/// The errors that decoding a tree gives: the input ended inside the tree,
/// or the reserved byte stood where a code was expected.
pub open spec fn tree_error(old: Seq<u8>, e: UnpackError) -> bool {
    e == eof() || (e == reserved() && !no_reserved(old))
}

/// The outcome of decoding one tree, as `parse_value` states it.
pub open spec fn value_read(old: Seq<u8>, new: Seq<u8>, r: Result<Value, UnpackError>) -> bool {
    &&& parse_value(old) matches Some((m, n)) ==> (r matches Ok(v) && v@ == m) && advanced(old, new, n)
    &&& parse_value(old) is None ==> r is Err
    &&& r is Err ==> new.len() <= old.len()
    &&& old.len() == 0 ==> r == Err::<Value, UnpackError>(eof())
    &&& r matches Err(e) ==> tree_error(old, e)
    &&& r matches Ok(v) ==> strings_wf(v)
}

/// Decodes `len` values one after another.
pub fn unpack_array_data<'a, R: BufferedRead<'a>>(reader: &mut R, len: usize) -> (r: Result<
    Vec<Value>,
    UnpackError,
>)
    ensures
        parse_values(old(reader).remaining(), len as nat) matches Some((ms, n)) ==> (r matches Ok(
            vs,
        ) && values_model(vs@) == ms) && advanced(old(reader).remaining(), final(reader).remaining(), n),
        parse_values(old(reader).remaining(), len as nat) is None ==> r is Err,
        r is Err ==> final(reader).remaining().len() <= old(reader).remaining().len(),
        r matches Err(e) ==> tree_error(old(reader).remaining(), e),
        r matches Ok(vs) ==> values_strings_wf(vs@),
    decreases old(reader).remaining().len(), 1int, len,
{
    let ghost s = reader.remaining();
    let mut vec: Vec<Value> = Vec::new();
    let mut i: usize = 0;
    let ghost mut consumed: int = 0;
    proof {
        assert(values_strings_wf(vec@));
        assert(values_model(vec@) =~= Seq::<ValueModel>::empty());
    }
    while i < len
        invariant
            i <= len,
            s == old(reader).remaining(),
            parse_values(s, i as nat) == Some((values_model(vec@), consumed)),
            values_strings_wf(vec@),
            advanced(s, reader.remaining(), consumed),
        decreases len - i,
    {
        let ghost before = reader.remaining();
        let v = match unpack_value(reader) {
            Ok(v) => v,
            Err(e) => {
                proof {
                    lemma_parse_values_none(s, (i + 1) as nat, len as nat);
                }
                return Err(e);
            },
        };
        proof {
            let k2 = parse_value(before)->Some_0.1;
            assert(vec@.push(v).drop_last() =~= vec@);
            consumed = consumed + k2;
        }
        vec.push(v);
        i = i + 1;
    }
    Ok(vec)
}

/// Decodes `len` key-value pairs one after another.
pub fn unpack_map_data<'a, R: BufferedRead<'a>>(reader: &mut R, len: usize) -> (r: Result<
    Vec<(Value, Value)>,
    UnpackError,
>)
    ensures
        parse_pairs(old(reader).remaining(), len as nat) matches Some((ms, n)) ==> (r matches Ok(
            ps,
        ) && pairs_model(ps@) == ms) && advanced(old(reader).remaining(), final(reader).remaining(), n),
        parse_pairs(old(reader).remaining(), len as nat) is None ==> r is Err,
        r is Err ==> final(reader).remaining().len() <= old(reader).remaining().len(),
        r matches Err(e) ==> tree_error(old(reader).remaining(), e),
        r matches Ok(ps) ==> pairs_strings_wf(ps@),
    decreases old(reader).remaining().len(), 1int, len,
{
    let ghost s = reader.remaining();
    let mut vec: Vec<(Value, Value)> = Vec::new();
    let mut i: usize = 0;
    let ghost mut consumed: int = 0;
    proof {
        assert(pairs_strings_wf(vec@));
        assert(pairs_model(vec@) =~= Seq::<(ValueModel, ValueModel)>::empty());
    }
    while i < len
        invariant
            i <= len,
            s == old(reader).remaining(),
            parse_pairs(s, i as nat) == Some((pairs_model(vec@), consumed)),
            pairs_strings_wf(vec@),
            advanced(s, reader.remaining(), consumed),
        decreases len - i,
    {
        let ghost before = reader.remaining();
        let k = match unpack_value(reader) {
            Ok(v) => v,
            Err(e) => {
                proof {
                    lemma_parse_pairs_none(s, (i + 1) as nat, len as nat);
                }
                return Err(e);
            },
        };
        let ghost k1 = parse_value(before)->Some_0.1;
        let ghost middle = reader.remaining();
        let v = match unpack_value(reader) {
            Ok(v) => v,
            Err(e) => {
                proof {
                    lemma_parse_pairs_none(s, (i + 1) as nat, len as nat);
                }
                return Err(e);
            },
        };
        proof {
            let k2 = parse_value(middle)->Some_0.1;
            assert(vec@.push((k, v)).drop_last() =~= vec@);
            consumed = consumed + k1 + k2;
        }
        vec.push((k, v));
        i = i + 1;
    }
    Ok(vec)
}

/// The reader just past the code byte `c` of the tree that starts `s`.
pub open spec fn past_code(s: Seq<u8>, c: Code, rest: Seq<u8>) -> bool {
    &&& s.len() >= 1
    &&& s[0] != RESERVED
    &&& c == classify(s[0])
    &&& advanced(s, rest, 1)
}

/// Integers and floats: the payload has a fixed width.
fn unpack_number_body<'a, R: BufferedRead<'a>>(reader: &mut R, c: Code, Ghost(s): Ghost<Seq<u8>>) -> (r: Result<Value, UnpackError>)
    requires
        past_code(s, c, old(reader).remaining()),
        c is Uint8 || c is Uint16 || c is Uint32 || c is Uint64 || c is Int8 || c is Int16
            || c is Int32 || c is Int64 || c is Float32 || c is Float64,
    ensures
        value_read(s, final(reader).remaining(), r),
{
    proof {
        lemma_classify_inverse(s[0]);
        lemma_after_code_bounds(s);
        lemma_pow256_values();
    }
    let val = match c {
        Code::Uint8 => Value::Integer(Integer::from_u64(read_data_u8(reader)? as u64)),
        Code::Uint16 => Value::Integer(Integer::from_u64(read_data_u16(reader)? as u64)),
        Code::Uint32 => Value::Integer(Integer::from_u64(read_data_u32(reader)? as u64)),
        Code::Uint64 => Value::Integer(Integer::from_u64(read_data_u64(reader)?)),
        Code::Int8 => Value::Integer(Integer::from_i64(read_data_i8(reader)? as i64)),
        Code::Int16 => Value::Integer(Integer::from_i64(read_data_i16(reader)? as i64)),
        Code::Int32 => Value::Integer(Integer::from_i64(read_data_i32(reader)? as i64)),
        Code::Int64 => Value::Integer(Integer::from_i64(read_data_i64(reader)?)),
        Code::Float32 => Value::Float(Float { n: FloatNumber::Float32(read_data_f32(reader)?) }),
        _ => Value::Float(Float { n: FloatNumber::Float64(read_data_f64(reader)?) }),
    };
    Ok(val)
}

/// Strings and binaries: a length, then that many bytes.
fn unpack_bytes_body<'a, R: BufferedRead<'a>>(reader: &mut R, c: Code, Ghost(s): Ghost<Seq<u8>>) -> (r: Result<Value, UnpackError>)
    requires
        past_code(s, c, old(reader).remaining()),
        c is FixStr || c is Str8 || c is Str16 || c is Str32 || c is Bin8 || c is Bin16 || c is Bin32,
    ensures
        value_read(s, final(reader).remaining(), r),
{
    proof {
        lemma_classify_inverse(s[0]);
        lemma_after_code_bounds(s);
        lemma_pow256_values();
    }
    let len = match c {
        Code::FixStr(n) => n as usize,
        Code::Str8 | Code::Bin8 => read_len(reader, 1)?,
        Code::Str16 | Code::Bin16 => read_len(reader, 2)?,
        _ => read_len(reader, 4)?,
    };
    match c {
        Code::FixStr(_) | Code::Str8 | Code::Str16 | Code::Str32 => Ok(Value::String(unpack_str_data(reader, len)?)),
        _ => Ok(Value::Binary(unpack_data(reader, len)?)),
    }
}

/// Extensions: a length (implicit for fix ext), a type, then the payload.
#[verifier::rlimit(60)]
fn unpack_ext_body<'a, R: BufferedRead<'a>>(reader: &mut R, c: Code, Ghost(s): Ghost<Seq<u8>>) -> (r: Result<Value, UnpackError>)
    requires
        past_code(s, c, old(reader).remaining()),
        c is FixExt1 || c is FixExt2 || c is FixExt4 || c is FixExt8 || c is FixExt16 || c is Ext8
            || c is Ext16 || c is Ext32,
    ensures
        value_read(s, final(reader).remaining(), r),
{
    proof {
        lemma_classify_inverse(s[0]);
        lemma_after_code_bounds(s);
        lemma_pow256_values();
    }
    let len = match c {
        Code::FixExt1 => 1,
        Code::FixExt2 => 2,
        Code::FixExt4 => 4,
        Code::FixExt8 => 8,
        Code::FixExt16 => 16,
        Code::Ext8 => read_len(reader, 1)?,
        Code::Ext16 => read_len(reader, 2)?,
        _ => read_len(reader, 4)?,
    };
    proof {
        let rem = reader.remaining();
        let h = s.len() - rem.len();
        assert(rem.skip(0) =~= rem);
        if rem.len() >= 1 + len {
            assert(rem.subrange(1, 1 + len) =~= s.subrange(h + 1, h + 1 + len));
        }
    }
    let (ty, data) = unpack_ext_type_data(reader, len)?;
    Ok(ext_value(c.to_u8(), ty, data))
}

/// Arrays and maps: a count, then that many elements or pairs.
fn unpack_container_body<'a, R: BufferedRead<'a>>(reader: &mut R, c: Code, Ghost(s): Ghost<Seq<u8>>) -> (r: Result<Value, UnpackError>)
    requires
        past_code(s, c, old(reader).remaining()),
        c is FixArray || c is Array16 || c is Array32 || c is FixMap || c is Map16 || c is Map32,
    ensures
        value_read(s, final(reader).remaining(), r),
    decreases old(reader).remaining().len(), 2int, 0int,
{
    proof {
        lemma_classify_inverse(s[0]);
        lemma_after_code_bounds(s);
        lemma_pow256_values();
    }
    let len = match c {
        Code::FixArray(n) => n as usize,
        Code::FixMap(n) => n as usize,
        Code::Array16 | Code::Map16 => read_len(reader, 2)?,
        _ => read_len(reader, 4)?,
    };
    match c {
        Code::FixArray(_) | Code::Array16 | Code::Array32 => Ok(Value::Array(unpack_array_data(reader, len)?)),
        _ => Ok(Value::Pairs(unpack_map_data(reader, len)?)),
    }
}

/// Decodes one whole value tree. Strings keep their bytes whether or not
/// they are UTF-8; extensions of type -1 in a timestamp's shape become
/// timestamps. The reserved byte `0xc1` is an error, never a panic.
pub fn unpack_value<'a, R: BufferedRead<'a>>(reader: &mut R) -> (r: Result<Value, UnpackError>)
    ensures
        value_read(old(reader).remaining(), final(reader).remaining(), r),
        old(reader).remaining().len() > 0 && old(reader).remaining()[0] == RESERVED ==> r
            == Err::<Value, UnpackError>(UnpackError::InvalidData(crate::error::DataError::ReservedCode)),
    decreases old(reader).remaining().len(), 0int, 0int,
{
    let ghost s = reader.remaining();
    let c = read_code(reader)?;
    proof {
        lemma_classify_inverse(s[0]);
        assert(reader.remaining() == s.skip(1));
    }
    match c {
        Code::Nil => Ok(Value::Nil),
        Code::True => Ok(Value::Boolean(true)),
        Code::False => Ok(Value::Boolean(false)),
        Code::PosInt(v) => Ok(Value::Integer(Integer::from_u64(v as u64))),
        Code::NegInt(v) => Ok(Value::Integer(Integer::from_i64(v as i64))),
        Code::Uint8 | Code::Uint16 | Code::Uint32 | Code::Uint64 | Code::Int8 | Code::Int16
        | Code::Int32 | Code::Int64 | Code::Float32 | Code::Float64 => unpack_number_body(reader, c, Ghost(s)),
        Code::FixStr(_) | Code::Str8 | Code::Str16 | Code::Str32 | Code::Bin8 | Code::Bin16
        | Code::Bin32 => unpack_bytes_body(reader, c, Ghost(s)),
        Code::FixArray(_) | Code::Array16 | Code::Array32 | Code::FixMap(_) | Code::Map16
        | Code::Map32 => unpack_container_body(reader, c, Ghost(s)),
        Code::Reserved => Err(UnpackError::InvalidData(crate::error::DataError::ReservedCode)),
        _ => unpack_ext_body(reader, c, Ghost(s)),
    }
}

} // verus!
