//! Decoding of whole value trees, borrowed: strings, binaries and extension
//! payloads are windows into the reader's backing slice, so nothing is
//! copied. The trees decoded are those that `parse_value` states.
use crate::code::{lemma_classify_inverse, Code, EXT8, FIXEXT4, FIXEXT8, RESERVED};
use crate::error::{eof, DataError, UnpackError};
use crate::primitive::{
    lemma_be_value_bound, lemma_pow256_values, read_data_f32, read_data_f64, read_data_i16,
    read_data_i32, read_data_i64, read_data_i8, read_data_u16, read_data_u32, read_data_u64,
    read_data_u8,
};
use crate::read::{
    advanced, lemma_advanced_no_reserved, lemma_advanced_none, lemma_advanced_take,
    lemma_advanced_trans, no_reserved, BufferedRead,
};
use crate::unpack::{
    read_code, read_len, unpack_array_header, unpack_bin_header, unpack_data_ref,
    unpack_ext_type_data_ref, unpack_map_header, unpack_str_header, with_payload,
    spec_unpack_array_header, spec_unpack_bin_header, spec_unpack_map_header,
    spec_unpack_str_header, view_ref, decoded, spec_data,
};
use crate::unpack_ext::split_timestamp64;
use crate::unpack_value::{
    ext_model, lemma_after_code_bounds, lemma_parse_pairs_none, lemma_parse_values_none,
    parse_pairs, parse_value, parse_values, past_code, tree_error,
};
use crate::value::{
    ref_pairs_model, ref_pairs_strings_wf, ref_strings_wf, ref_values_model,
    ref_values_strings_wf, Float, FloatNumber, Integer, RefValue, Utf8StringRef,
    ValueModel,
};
use crate::text::str_from_utf8;
use vstd::prelude::*;
use vstd::utf8::{decode_utf8, valid_utf8};

verus! {

broadcast use {
    lemma_advanced_trans,
    lemma_advanced_none,
    lemma_advanced_take,
    lemma_advanced_no_reserved,
};

/// The borrowed value an extension stands for, given its code byte, type and payload.
pub fn ext_value_ref<'a>(c: u8, ty: i8, data: &'a [u8]) -> (r: RefValue<'a>)
    ensures
        r@ == ext_model(c, ty, data@),
        ref_strings_wf(r),
{
    if ty == -1 && c == FIXEXT4 && data.len() == 4 {
        let mut rd: &[u8] = data;
        proof {
            assert(data@.take(4) =~= data@);
            lemma_pow256_values();
            lemma_be_value_bound(data@);
        }
        match read_data_u32(&mut rd) {
            Ok(sec) => RefValue::Timestamp(sec as i64, 0),
            Err(_) => RefValue::Extension(ty, data),
        }
    } else if ty == -1 && c == FIXEXT8 && data.len() == 8 {
        let mut rd: &[u8] = data;
        proof {
            assert(data@.take(8) =~= data@);
            lemma_pow256_values();
            lemma_be_value_bound(data@);
        }
        match read_data_u64(&mut rd) {
            Ok(raw) => {
                let (sec, nsec) = split_timestamp64(raw);
                RefValue::Timestamp(sec as i64, nsec)
            },
            Err(_) => RefValue::Extension(ty, data),
        }
    } else if ty == -1 && c == EXT8 && data.len() == 12 {
        let mut rd: &[u8] = data;
        let ghost d = data@;
        proof {
            assert(d.skip(4).take(8) =~= d.skip(4));
            lemma_pow256_values();
            lemma_be_value_bound(d.take(4));
        }
        let nsec = read_data_u32(&mut rd);
        let sec = read_data_i64(&mut rd);
        match (sec, nsec) {
            (Ok(sec), Ok(nsec)) => RefValue::Timestamp(sec, nsec),
            _ => RefValue::Extension(ty, data),
        }
    } else {
        RefValue::Extension(ty, data)
    }
}

/// The outcome of decoding one borrowed tree, as `parse_value` states it.
pub open spec fn ref_value_read<'a>(old: Seq<u8>, new: Seq<u8>, r: Result<RefValue<'a>, UnpackError>) -> bool {
    &&& parse_value(old) matches Some((m, n)) ==> (r matches Ok(v) && v@ == m) && advanced(old, new, n)
    &&& parse_value(old) is None ==> r is Err
    &&& r is Err ==> new.len() <= old.len()
    &&& old.len() == 0 ==> r == Err::<RefValue<'a>, UnpackError>(eof())
    &&& r matches Err(e) ==> tree_error(old, e)
    &&& r matches Ok(v) ==> ref_strings_wf(v)
}

/// Decodes `len` values one after another.
pub fn unpack_ary_data<'a, R: BufferedRead<'a>>(reader: &mut R, len: usize) -> (r: Result<
    Vec<RefValue<'a>>,
    UnpackError,
>)
    ensures
        parse_values(old(reader).remaining(), len as nat) matches Some((ms, n)) ==> (r matches Ok(
            vs,
        ) && ref_values_model(vs@) == ms) && advanced(old(reader).remaining(), final(reader).remaining(), n),
        parse_values(old(reader).remaining(), len as nat) is None ==> r is Err,
        r is Err ==> final(reader).remaining().len() <= old(reader).remaining().len(),
        r matches Err(e) ==> tree_error(old(reader).remaining(), e),
        r matches Ok(vs) ==> ref_values_strings_wf(vs@),
    decreases old(reader).remaining().len(), 1int, len,
{
    let ghost s = reader.remaining();
    let mut vec: Vec<RefValue<'a>> = Vec::new();
    let mut i: usize = 0;
    let ghost mut consumed: int = 0;
    proof {
        assert(ref_values_strings_wf(vec@));
        assert(ref_values_model(vec@) =~= Seq::<ValueModel>::empty());
    }
    while i < len
        invariant
            i <= len,
            s == old(reader).remaining(),
            parse_values(s, i as nat) == Some((ref_values_model(vec@), consumed)),
            ref_values_strings_wf(vec@),
            advanced(s, reader.remaining(), consumed),
        decreases len - i,
    {
        let ghost before = reader.remaining();
        let v = match unpack_value_ref(reader) {
            Ok(v) => v,
            Err(e) => {
                proof {
                    lemma_parse_values_none(s, (i + 1) as nat, len as nat);
                }
                return Err(e);
            },
        };
        proof {
            let k2 = parse_value(before)->Some_0.1;
            assert(vec@.push(v).drop_last() =~= vec@);
            consumed = consumed + k2;
        }
        vec.push(v);
        i = i + 1;
    }
    Ok(vec)
}

/// Decodes `len` key-value pairs one after another.
pub fn unpack_map_data<'a, R: BufferedRead<'a>>(reader: &mut R, len: usize) -> (r: Result<
    Vec<(RefValue<'a>, RefValue<'a>)>,
    UnpackError,
>)
    ensures
        parse_pairs(old(reader).remaining(), len as nat) matches Some((ms, n)) ==> (r matches Ok(
            ps,
        ) && ref_pairs_model(ps@) == ms) && advanced(old(reader).remaining(), final(reader).remaining(), n),
        parse_pairs(old(reader).remaining(), len as nat) is None ==> r is Err,
        r is Err ==> final(reader).remaining().len() <= old(reader).remaining().len(),
        r matches Err(e) ==> tree_error(old(reader).remaining(), e),
        r matches Ok(ps) ==> ref_pairs_strings_wf(ps@),
    decreases old(reader).remaining().len(), 1int, len,
{
    let ghost s = reader.remaining();
    let mut vec: Vec<(RefValue<'a>, RefValue<'a>)> = Vec::new();
    let mut i: usize = 0;
    let ghost mut consumed: int = 0;
    proof {
        assert(ref_pairs_strings_wf(vec@));
        assert(ref_pairs_model(vec@) =~= Seq::<(ValueModel, ValueModel)>::empty());
    }
    while i < len
        invariant
            i <= len,
            s == old(reader).remaining(),
            parse_pairs(s, i as nat) == Some((ref_pairs_model(vec@), consumed)),
            ref_pairs_strings_wf(vec@),
            advanced(s, reader.remaining(), consumed),
        decreases len - i,
    {
        let ghost before = reader.remaining();
        let k = match unpack_value_ref(reader) {
            Ok(v) => v,
            Err(e) => {
                proof {
                    lemma_parse_pairs_none(s, (i + 1) as nat, len as nat);
                }
                return Err(e);
            },
        };
        let ghost k1 = parse_value(before)->Some_0.1;
        let ghost middle = reader.remaining();
        let v = match unpack_value_ref(reader) {
            Ok(v) => v,
            Err(e) => {
                proof {
                    lemma_parse_pairs_none(s, (i + 1) as nat, len as nat);
                }
                return Err(e);
            },
        };
        proof {
            let k2 = parse_value(middle)->Some_0.1;
            assert(vec@.push((k, v)).drop_last() =~= vec@);
            consumed = consumed + k1 + k2;
        }
        vec.push((k, v));
        i = i + 1;
    }
    Ok(vec)
}

/// Integers and floats: the payload has a fixed width.
fn ref_number_body<'a, R: BufferedRead<'a>>(reader: &mut R, c: Code, Ghost(s): Ghost<Seq<u8>>) -> (r: Result<RefValue<'a>, UnpackError>)
    requires
        past_code(s, c, old(reader).remaining()),
        c is Uint8 || c is Uint16 || c is Uint32 || c is Uint64 || c is Int8 || c is Int16
            || c is Int32 || c is Int64 || c is Float32 || c is Float64,
    ensures
        ref_value_read(s, final(reader).remaining(), r),
{
    proof {
        lemma_classify_inverse(s[0]);
        lemma_after_code_bounds(s);
        lemma_pow256_values();
    }
    let val = match c {
        Code::Uint8 => RefValue::Integer(Integer::from_u64(read_data_u8(reader)? as u64)),
        Code::Uint16 => RefValue::Integer(Integer::from_u64(read_data_u16(reader)? as u64)),
        Code::Uint32 => RefValue::Integer(Integer::from_u64(read_data_u32(reader)? as u64)),
        Code::Uint64 => RefValue::Integer(Integer::from_u64(read_data_u64(reader)?)),
        Code::Int8 => RefValue::Integer(Integer::from_i64(read_data_i8(reader)? as i64)),
        Code::Int16 => RefValue::Integer(Integer::from_i64(read_data_i16(reader)? as i64)),
        Code::Int32 => RefValue::Integer(Integer::from_i64(read_data_i32(reader)? as i64)),
        Code::Int64 => RefValue::Integer(Integer::from_i64(read_data_i64(reader)?)),
        Code::Float32 => RefValue::Float(Float { n: FloatNumber::Float32(read_data_f32(reader)?) }),
        _ => RefValue::Float(Float { n: FloatNumber::Float64(read_data_f64(reader)?) }),
    };
    Ok(val)
}

/// Strings and binaries: a length, then that many bytes.
#[verifier::rlimit(100)]
fn ref_bytes_body<'a, R: BufferedRead<'a>>(reader: &mut R, c: Code, Ghost(s): Ghost<Seq<u8>>) -> (r: Result<RefValue<'a>, UnpackError>)
    requires
        past_code(s, c, old(reader).remaining()),
        c is FixStr || c is Str8 || c is Str16 || c is Str32 || c is Bin8 || c is Bin16 || c is Bin32,
    ensures
        ref_value_read(s, final(reader).remaining(), r),
{
    proof {
        lemma_classify_inverse(s[0]);
        lemma_after_code_bounds(s);
        lemma_pow256_values();
    }
    let len = match c {
        Code::FixStr(n) => n as usize,
        Code::Str8 | Code::Bin8 => read_len(reader, 1)?,
        Code::Str16 | Code::Bin16 => read_len(reader, 2)?,
        _ => read_len(reader, 4)?,
    };
    match c {
        Code::FixStr(_) | Code::Str8 | Code::Str16 | Code::Str32 => Ok(RefValue::String(Utf8StringRef::from_slice(unpack_data_ref(reader, len)?))),
        _ => Ok(RefValue::Binary(unpack_data_ref(reader, len)?)),
    }
}

/// Extensions: a length (implicit for fix ext), a type, then the payload.
#[verifier::rlimit(100)]
fn ref_ext_body<'a, R: BufferedRead<'a>>(reader: &mut R, c: Code, Ghost(s): Ghost<Seq<u8>>) -> (r: Result<RefValue<'a>, UnpackError>)
    requires
        past_code(s, c, old(reader).remaining()),
        c is FixExt1 || c is FixExt2 || c is FixExt4 || c is FixExt8 || c is FixExt16 || c is Ext8
            || c is Ext16 || c is Ext32,
    ensures
        ref_value_read(s, final(reader).remaining(), r),
{
    proof {
        lemma_classify_inverse(s[0]);
        lemma_after_code_bounds(s);
        lemma_pow256_values();
    }
    let len = match c {
        Code::FixExt1 => 1,
        Code::FixExt2 => 2,
        Code::FixExt4 => 4,
        Code::FixExt8 => 8,
        Code::FixExt16 => 16,
        Code::Ext8 => read_len(reader, 1)?,
        Code::Ext16 => read_len(reader, 2)?,
        _ => read_len(reader, 4)?,
    };
    proof {
        let rem = reader.remaining();
        let h = s.len() - rem.len();
        assert(rem.skip(0) =~= rem);
        if rem.len() >= 1 + len {
            assert(rem.subrange(1, 1 + len) =~= s.subrange(h + 1, h + 1 + len));
        }
    }
    let (ty, data) = unpack_ext_type_data_ref(reader, len)?;
    Ok(ext_value_ref(c.to_u8(), ty, data))
}

/// Arrays and maps: a count, then that many elements or pairs.
fn ref_container_body<'a, R: BufferedRead<'a>>(reader: &mut R, c: Code, Ghost(s): Ghost<Seq<u8>>) -> (r: Result<RefValue<'a>, UnpackError>)
    requires
        past_code(s, c, old(reader).remaining()),
        c is FixArray || c is Array16 || c is Array32 || c is FixMap || c is Map16 || c is Map32,
    ensures
        ref_value_read(s, final(reader).remaining(), r),
    decreases old(reader).remaining().len(), 2int, 0int,
{
    proof {
        lemma_classify_inverse(s[0]);
        lemma_after_code_bounds(s);
        lemma_pow256_values();
    }
    let len = match c {
        Code::FixArray(n) => n as usize,
        Code::FixMap(n) => n as usize,
        Code::Array16 | Code::Map16 => read_len(reader, 2)?,
        _ => read_len(reader, 4)?,
    };
    match c {
        Code::FixArray(_) | Code::Array16 | Code::Array32 => Ok(RefValue::Array(unpack_ary_data(reader, len)?)),
        _ => Ok(RefValue::Pairs(unpack_map_data(reader, len)?)),
    }
}

/// Decodes one whole value tree, borrowing strings, binaries and extension
/// payloads from the reader's backing slice. Strings keep their bytes whether or not
/// they are UTF-8; extensions of type -1 in a timestamp's shape become
/// timestamps. The reserved byte `0xc1` is an error, never a panic.
pub fn unpack_value_ref<'a, R: BufferedRead<'a>>(reader: &mut R) -> (r: Result<RefValue<'a>, UnpackError>)
    ensures
        ref_value_read(old(reader).remaining(), final(reader).remaining(), r),
        old(reader).remaining().len() > 0 && old(reader).remaining()[0] == RESERVED ==> r
            == Err::<RefValue<'a>, UnpackError>(UnpackError::InvalidData(crate::error::DataError::ReservedCode)),
    decreases old(reader).remaining().len(), 0int, 0int,
{
    let ghost s = reader.remaining();
    let c = read_code(reader)?;
    proof {
        lemma_classify_inverse(s[0]);
        assert(reader.remaining() == s.skip(1));
    }
    match c {
        Code::Nil => Ok(RefValue::Nil),
        Code::True => Ok(RefValue::Boolean(true)),
        Code::False => Ok(RefValue::Boolean(false)),
        Code::PosInt(v) => Ok(RefValue::Integer(Integer::from_u64(v as u64))),
        Code::NegInt(v) => Ok(RefValue::Integer(Integer::from_i64(v as i64))),
        Code::Uint8 | Code::Uint16 | Code::Uint32 | Code::Uint64 | Code::Int8 | Code::Int16
        | Code::Int32 | Code::Int64 | Code::Float32 | Code::Float64 => ref_number_body(reader, c, Ghost(s)),
        Code::FixStr(_) | Code::Str8 | Code::Str16 | Code::Str32 | Code::Bin8 | Code::Bin16
        | Code::Bin32 => ref_bytes_body(reader, c, Ghost(s)),
        Code::FixArray(_) | Code::Array16 | Code::Array32 | Code::FixMap(_) | Code::Map16
        | Code::Map32 => ref_container_body(reader, c, Ghost(s)),
        Code::Reserved => Err(UnpackError::InvalidData(crate::error::DataError::ReservedCode)),
        _ => ref_ext_body(reader, c, Ghost(s)),
    }
}

/// An array header, then that many borrowed values.
pub fn unpack_ary<'a, R: BufferedRead<'a>>(reader: &mut R) -> (r: Result<Vec<RefValue<'a>>, UnpackError>)
    ensures
        ({
            let s = old(reader).remaining();
            let h = spec_unpack_array_header(s);
            &&& h.0 is Err ==> r == Err::<Vec<RefValue<'a>>, UnpackError>(h.0->Err_0)
                && advanced(s, final(reader).remaining(), h.1)
            &&& h.0 matches Ok(n) ==> (parse_values(s.skip(h.1), n as nat) matches Some((ms, k))
                ==> (r matches Ok(vs) && ref_values_model(vs@) == ms) && advanced(s, final(reader).remaining(), h.1 + k))
            &&& h.0 matches Ok(n) ==> (parse_values(s.skip(h.1), n as nat) is None ==> r is Err)
        }),
{
    let len = unpack_array_header(reader)?;
    unpack_ary_data(reader, len)
}

/// A map header, then that many borrowed key-value pairs.
pub fn unpack_map<'a, R: BufferedRead<'a>>(reader: &mut R) -> (r: Result<Vec<(RefValue<'a>, RefValue<'a>)>, UnpackError>)
    ensures
        ({
            let s = old(reader).remaining();
            let h = spec_unpack_map_header(s);
            &&& h.0 is Err ==> r == Err::<Vec<(RefValue<'a>, RefValue<'a>)>, UnpackError>(h.0->Err_0)
                && advanced(s, final(reader).remaining(), h.1)
            &&& h.0 matches Ok(n) ==> (parse_pairs(s.skip(h.1), n as nat) matches Some((ms, k))
                ==> (r matches Ok(ps) && ref_pairs_model(ps@) == ms) && advanced(s, final(reader).remaining(), h.1 + k))
            &&& h.0 matches Ok(n) ==> (parse_pairs(s.skip(h.1), n as nat) is None ==> r is Err)
        }),
{
    let len = unpack_map_header(reader)?;
    unpack_map_data(reader, len)
}

/// A string, borrowed: text when its bytes are UTF-8, else the raw bytes.
pub fn unpack_str<'a, R: BufferedRead<'a>>(reader: &mut R) -> (r: Result<Utf8StringRef<'a>, UnpackError>)
    ensures
        ({
            let d = with_payload(old(reader).remaining(), spec_unpack_str_header(old(reader).remaining()));
            &&& d.0 matches Ok(b) ==> r matches Ok(u) && u.bytes() == b && u.wf()
            &&& d.0 matches Err(e) ==> r == Err::<Utf8StringRef<'a>, UnpackError>(e)
            &&& advanced(old(reader).remaining(), final(reader).remaining(), d.1)
        }),
{
    let len = unpack_str_header(reader)?;
    let data = unpack_data_ref(reader, len)?;
    Ok(Utf8StringRef::from_slice(data))
}

/// A binary, borrowed from the backing slice.
pub fn unpack_bin<'a, R: BufferedRead<'a>>(reader: &mut R) -> (r: Result<&'a [u8], UnpackError>)
    ensures
        decoded(old(reader).remaining(), final(reader).remaining(), view_ref(r),
            with_payload(old(reader).remaining(), spec_unpack_bin_header(old(reader).remaining()))),
{
    let len = unpack_bin_header(reader)?;
    unpack_data_ref(reader, len)
}

/// `len` bytes of text, borrowed; bytes that are not UTF-8 are an error.
pub fn unpack_str_data<'a, R: BufferedRead<'a>>(reader: &mut R, len: usize) -> (r: Result<&'a str, UnpackError>)
    ensures
        ({
            let d = spec_data(old(reader).remaining(), len as int);
            &&& d.0 matches Ok(b) ==> (valid_utf8(b) ==> (r matches Ok(t) && t@ == decode_utf8(b)))
            &&& d.0 matches Ok(b) ==> (!valid_utf8(b) ==> r == Err::<&'a str, UnpackError>(
                UnpackError::InvalidData(DataError::InvalidUtf8)))
            &&& d.0 matches Err(e) ==> r == Err::<&'a str, UnpackError>(e)
            &&& advanced(old(reader).remaining(), final(reader).remaining(), d.1)
        }),
{
    let buf = unpack_data_ref(reader, len)?;
    match str_from_utf8(buf) {
        Ok(s) => Ok(s),
        Err(_) => Err(UnpackError::InvalidData(DataError::InvalidUtf8)),
    }
}

} // verus!
