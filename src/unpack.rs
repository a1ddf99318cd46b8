//! Decoding of one typed element at a time. Each function is specified by a
//! decoder over the unread bytes: what it returns, and how many bytes it
//! consumes. A code outside the accepted set gives `TypeMismatch` with the
//! reader just past the code.
use crate::code::{
    classify, lemma_classify_inverse, Code, ARRAY16, ARRAY32, BIN16, BIN32, BIN8, FALSE, FLOAT32, FLOAT64, INT16, INT32,
    INT64, INT8, MAP16, MAP32, NIL, RESERVED, STR16, STR32, STR8, TRUE, UINT16, UINT32, UINT64,
    UINT8,
};
use crate::error::{eof, DataError, UnpackError};
use crate::primitive::{
    be_prefix, lemma_be_value_bound, lemma_pow256_values, read_data_f32, read_data_f64,
    read_data_i16, read_data_i32, read_data_i64, read_data_i8, read_data_u16, read_data_u32,
    read_data_u64, read_data_u8, signed_of,
};
use crate::read::{
    advanced, lemma_advanced_none, lemma_advanced_take, lemma_advanced_trans, BufferedRead,
};
use vstd::prelude::*;
use vstd::slice::{slice_subrange, slice_to_vec};

verus! {

broadcast use {lemma_advanced_trans, lemma_advanced_none, lemma_advanced_take};

/// The reader after a decode: `r` is the decoder's result `d.0`, and the
/// reader moved past the `d.1` bytes that the decoder consumed.
pub open spec fn decoded<T>(
    old: Seq<u8>,
    new: Seq<u8>,
    r: Result<T, UnpackError>,
    d: (Result<T, UnpackError>, int),
) -> bool {
    r == d.0 && advanced(old, new, d.1)
}

pub open spec fn reserved() -> UnpackError {
    UnpackError::InvalidData(DataError::ReservedCode)
}

/// Reading the code first: an empty input, or the reserved byte, fails
/// before `body` is consulted.
pub open spec fn with_code<T>(s: Seq<u8>, body: (Result<T, UnpackError>, int)) -> (
    Result<T, UnpackError>,
    int,
) {
    if s.len() == 0 {
        (Err(eof()), 0)
    } else if s[0] == RESERVED {
        (Err(reserved()), 1)
    } else {
        body
    }
}

/// A code followed by `n` payload bytes that stand for `v`.
pub open spec fn fixed<T>(s: Seq<u8>, n: int, v: T) -> (Result<T, UnpackError>, int) {
    if s.len() < 1 + n {
        (Err(eof()), 1)
    } else {
        (Ok(v), 1 + n)
    }
}

pub open spec fn mismatch<T>(s: Seq<u8>, name: &'static str) -> (Result<T, UnpackError>, int) {
    (Err(UnpackError::TypeMismatch(classify(s[0]), name)), 1)
}

/// The big-endian number in the `n` bytes that follow the code.
pub open spec fn after_code(s: Seq<u8>, n: int) -> nat {
    be_prefix(s.skip(1), n)
}

pub fn read_code<'a, R: BufferedRead<'a>>(rd: &mut R) -> (r: Result<Code, UnpackError>)
    ensures
        decoded(
            old(rd).remaining(),
            final(rd).remaining(),
            r,
            with_code(old(rd).remaining(), (Ok(classify(old(rd).remaining()[0])), 1)),
        ),
        r matches Ok(c) ==> c.wf() && c != Code::Reserved,
{
    let b = read_data_u8(rd)?;
    proof {
        lemma_classify_inverse(b);
    }
    if b == RESERVED {
        Err(UnpackError::InvalidData(DataError::ReservedCode))
    } else {
        Ok(Code::from_u8(b))
    }
}

pub open spec fn spec_unpack_u8(s: Seq<u8>) -> (Result<u8, UnpackError>, int) {
    with_code(
        s,
        if s[0] <= 0x7f {
            (Ok(s[0]), 1)
        } else if s[0] == UINT8 {
            fixed(s, 1, s[1])
        } else {
            mismatch(s, "u8")
        },
    )
}

/// Accepts a positive fix int or a uint 8.
pub fn unpack_u8<'a, R: BufferedRead<'a>>(reader: &mut R) -> (r: Result<u8, UnpackError>)
    ensures
        decoded(old(reader).remaining(), final(reader).remaining(), r, spec_unpack_u8(old(reader).remaining())),
{
    let ghost s = reader.remaining();
    let c = read_code(reader)?;
    proof {
        lemma_classify_inverse(s[0]);
    }
    match c {
        Code::PosInt(v) => Ok(v),
        Code::Uint8 => read_data_u8(reader),
        e => Err(UnpackError::TypeMismatch(e, "u8")),
    }
}

pub open spec fn spec_unpack_u16(s: Seq<u8>) -> (Result<u16, UnpackError>, int) {
    with_code(
        s,
        if s[0] == UINT16 {
            fixed(s, 2, after_code(s, 2) as u16)
        } else {
            mismatch(s, "u16")
        },
    )
}

/// Accepts a uint 16 only: narrower codes are not widened.
pub fn unpack_u16<'a, R: BufferedRead<'a>>(reader: &mut R) -> (r: Result<u16, UnpackError>)
    ensures
        decoded(old(reader).remaining(), final(reader).remaining(), r, spec_unpack_u16(old(reader).remaining())),
{
    let ghost s = reader.remaining();
    let c = read_code(reader)?;
    proof {
        lemma_classify_inverse(s[0]);
        assert(reader.remaining() == s.skip(1));
    }
    match c {
        Code::Uint16 => read_data_u16(reader),
        e => Err(UnpackError::TypeMismatch(e, "u16")),
    }
}

pub open spec fn spec_unpack_u32(s: Seq<u8>) -> (Result<u32, UnpackError>, int) {
    with_code(
        s,
        if s[0] == UINT32 {
            fixed(s, 4, after_code(s, 4) as u32)
        } else {
            mismatch(s, "u32")
        },
    )
}

/// Accepts a uint 32 only.
pub fn unpack_u32<'a, R: BufferedRead<'a>>(reader: &mut R) -> (r: Result<u32, UnpackError>)
    ensures
        decoded(old(reader).remaining(), final(reader).remaining(), r, spec_unpack_u32(old(reader).remaining())),
{
    let ghost s = reader.remaining();
    let c = read_code(reader)?;
    proof {
        lemma_classify_inverse(s[0]);
        assert(reader.remaining() == s.skip(1));
    }
    match c {
        Code::Uint32 => read_data_u32(reader),
        e => Err(UnpackError::TypeMismatch(e, "u32")),
    }
}

pub open spec fn spec_unpack_u64(s: Seq<u8>) -> (Result<u64, UnpackError>, int) {
    with_code(
        s,
        if s[0] == UINT64 {
            fixed(s, 8, after_code(s, 8) as u64)
        } else {
            mismatch(s, "u64")
        },
    )
}

/// Accepts a uint 64 only.
pub fn unpack_u64<'a, R: BufferedRead<'a>>(reader: &mut R) -> (r: Result<u64, UnpackError>)
    ensures
        decoded(old(reader).remaining(), final(reader).remaining(), r, spec_unpack_u64(old(reader).remaining())),
{
    let ghost s = reader.remaining();
    let c = read_code(reader)?;
    proof {
        lemma_classify_inverse(s[0]);
        assert(reader.remaining() == s.skip(1));
    }
    match c {
        Code::Uint64 => read_data_u64(reader),
        e => Err(UnpackError::TypeMismatch(e, "u64")),
    }
}

pub open spec fn spec_unpack_i8(s: Seq<u8>) -> (Result<i8, UnpackError>, int) {
    with_code(
        s,
        if s[0] >= 0xe0 {
            (Ok((s[0] - 256) as i8), 1)
        } else if s[0] == INT8 {
            fixed(s, 1, signed_of(after_code(s, 1), 1) as i8)
        } else {
            mismatch(s, "i8")
        },
    )
}

/// Accepts a negative fix int or an int 8.
pub fn unpack_i8<'a, R: BufferedRead<'a>>(reader: &mut R) -> (r: Result<i8, UnpackError>)
    ensures
        decoded(old(reader).remaining(), final(reader).remaining(), r, spec_unpack_i8(old(reader).remaining())),
{
    let ghost s = reader.remaining();
    let c = read_code(reader)?;
    proof {
        lemma_classify_inverse(s[0]);
        assert(reader.remaining() == s.skip(1));
    }
    match c {
        Code::NegInt(v) => Ok(v),
        Code::Int8 => read_data_i8(reader),
        e => Err(UnpackError::TypeMismatch(e, "i8")),
    }
}

pub open spec fn spec_unpack_i16(s: Seq<u8>) -> (Result<i16, UnpackError>, int) {
    with_code(
        s,
        if s[0] == INT16 {
            fixed(s, 2, signed_of(after_code(s, 2), 2) as i16)
        } else {
            mismatch(s, "i16")
        },
    )
}

/// Accepts an int 16 only.
pub fn unpack_i16<'a, R: BufferedRead<'a>>(reader: &mut R) -> (r: Result<i16, UnpackError>)
    ensures
        decoded(old(reader).remaining(), final(reader).remaining(), r, spec_unpack_i16(old(reader).remaining())),
{
    let ghost s = reader.remaining();
    let c = read_code(reader)?;
    proof {
        lemma_classify_inverse(s[0]);
        assert(reader.remaining() == s.skip(1));
    }
    match c {
        Code::Int16 => read_data_i16(reader),
        e => Err(UnpackError::TypeMismatch(e, "i16")),
    }
}

pub open spec fn spec_unpack_i32(s: Seq<u8>) -> (Result<i32, UnpackError>, int) {
    with_code(
        s,
        if s[0] == INT32 {
            fixed(s, 4, signed_of(after_code(s, 4), 4) as i32)
        } else {
            mismatch(s, "i32")
        },
    )
}

/// Accepts an int 32 only.
pub fn unpack_i32<'a, R: BufferedRead<'a>>(reader: &mut R) -> (r: Result<i32, UnpackError>)
    ensures
        decoded(old(reader).remaining(), final(reader).remaining(), r, spec_unpack_i32(old(reader).remaining())),
{
    let ghost s = reader.remaining();
    let c = read_code(reader)?;
    proof {
        lemma_classify_inverse(s[0]);
        assert(reader.remaining() == s.skip(1));
    }
    match c {
        Code::Int32 => read_data_i32(reader),
        e => Err(UnpackError::TypeMismatch(e, "i32")),
    }
}

pub open spec fn spec_unpack_i64(s: Seq<u8>) -> (Result<i64, UnpackError>, int) {
    with_code(
        s,
        if s[0] == INT64 {
            fixed(s, 8, signed_of(after_code(s, 8), 8) as i64)
        } else {
            mismatch(s, "i64")
        },
    )
}

/// Accepts an int 64 only.
pub fn unpack_i64<'a, R: BufferedRead<'a>>(reader: &mut R) -> (r: Result<i64, UnpackError>)
    ensures
        decoded(old(reader).remaining(), final(reader).remaining(), r, spec_unpack_i64(old(reader).remaining())),
{
    let ghost s = reader.remaining();
    let c = read_code(reader)?;
    proof {
        lemma_classify_inverse(s[0]);
        assert(reader.remaining() == s.skip(1));
    }
    match c {
        Code::Int64 => read_data_i64(reader),
        e => Err(UnpackError::TypeMismatch(e, "i64")),
    }
}

pub open spec fn spec_unpack_f32(s: Seq<u8>) -> (Result<u32, UnpackError>, int) {
    with_code(
        s,
        if s[0] == FLOAT32 {
            fixed(s, 4, after_code(s, 4) as u32)
        } else {
            mismatch(s, "f32")
        },
    )
}

/// Accepts a float 32; gives its IEEE 754 bit pattern.
pub fn unpack_f32<'a, R: BufferedRead<'a>>(reader: &mut R) -> (r: Result<u32, UnpackError>)
    ensures
        decoded(old(reader).remaining(), final(reader).remaining(), r, spec_unpack_f32(old(reader).remaining())),
{
    let ghost s = reader.remaining();
    let c = read_code(reader)?;
    proof {
        lemma_classify_inverse(s[0]);
        assert(reader.remaining() == s.skip(1));
    }
    match c {
        Code::Float32 => read_data_f32(reader),
        e => Err(UnpackError::TypeMismatch(e, "f32")),
    }
}

pub open spec fn spec_unpack_f64(s: Seq<u8>) -> (Result<u64, UnpackError>, int) {
    with_code(
        s,
        if s[0] == FLOAT64 {
            fixed(s, 8, after_code(s, 8) as u64)
        } else {
            mismatch(s, "f64")
        },
    )
}

/// Accepts a float 64; gives its IEEE 754 bit pattern.
pub fn unpack_f64<'a, R: BufferedRead<'a>>(reader: &mut R) -> (r: Result<u64, UnpackError>)
    ensures
        decoded(old(reader).remaining(), final(reader).remaining(), r, spec_unpack_f64(old(reader).remaining())),
{
    let ghost s = reader.remaining();
    let c = read_code(reader)?;
    proof {
        lemma_classify_inverse(s[0]);
        assert(reader.remaining() == s.skip(1));
    }
    match c {
        Code::Float64 => read_data_f64(reader),
        e => Err(UnpackError::TypeMismatch(e, "f64")),
    }
}

pub open spec fn spec_unpack_bool(s: Seq<u8>) -> (Result<bool, UnpackError>, int) {
    with_code(
        s,
        if s[0] == TRUE {
            (Ok(true), 1)
        } else if s[0] == FALSE {
            (Ok(false), 1)
        } else {
            mismatch(s, "bool")
        },
    )
}

pub fn unpack_bool<'a, R: BufferedRead<'a>>(reader: &mut R) -> (r: Result<bool, UnpackError>)
    ensures
        decoded(old(reader).remaining(), final(reader).remaining(), r, spec_unpack_bool(old(reader).remaining())),
{
    let ghost s = reader.remaining();
    let c = read_code(reader)?;
    proof {
        lemma_classify_inverse(s[0]);
    }
    match c {
        Code::True => Ok(true),
        Code::False => Ok(false),
        e => Err(UnpackError::TypeMismatch(e, "bool")),
    }
}

pub open spec fn spec_unpack_nil<T>(s: Seq<u8>) -> (Result<Option<T>, UnpackError>, int) {
    with_code(
        s,
        if s[0] == NIL {
            (Ok(None), 1)
        } else {
            mismatch(s, "nil")
        },
    )
}

/// Accepts nil, which stands for an absent value.
pub fn unpack_nil<'a, T, R: BufferedRead<'a>>(reader: &mut R) -> (r: Result<Option<T>, UnpackError>)
    ensures
        decoded(old(reader).remaining(), final(reader).remaining(), r, spec_unpack_nil::<T>(old(reader).remaining())),
{
    let ghost s = reader.remaining();
    let c = read_code(reader)?;
    proof {
        lemma_classify_inverse(s[0]);
    }
    match c {
        Code::Nil => Ok(None),
        e => Err(UnpackError::TypeMismatch(e, "nil")),
    }
}

/// A header whose length is `n` big-endian bytes after the code.
pub open spec fn sized(s: Seq<u8>, n: int) -> (Result<usize, UnpackError>, int) {
    fixed(s, n, after_code(s, n) as usize)
}

pub open spec fn spec_unpack_bin_header(s: Seq<u8>) -> (Result<usize, UnpackError>, int) {
    with_code(
        s,
        if s[0] == BIN8 {
            sized(s, 1)
        } else if s[0] == BIN16 {
            sized(s, 2)
        } else if s[0] == BIN32 {
            sized(s, 4)
        } else {
            mismatch(s, "binary header")
        },
    )
}

/// Reads the length that a length field of `n` bytes holds.
pub fn read_len<'a, R: BufferedRead<'a>>(reader: &mut R, n: usize) -> (r: Result<usize, UnpackError>)
    requires
        n == 1 || n == 2 || n == 4,
    ensures
        old(reader).remaining().len() >= n ==> r == Ok::<usize, UnpackError>(
            be_prefix(old(reader).remaining(), n as int) as usize,
        ) && advanced(old(reader).remaining(), final(reader).remaining(), n as int),
        old(reader).remaining().len() < n ==> r == Err::<usize, UnpackError>(eof())
            && final(reader).remaining() == old(reader).remaining(),
{
    proof {
        lemma_pow256_values();
        if old(reader).remaining().len() >= n {
            lemma_be_value_bound(old(reader).remaining().take(n as int));
        }
    }
    if n == 1 {
        let ghost s = reader.remaining();
        let v = read_data_u8(reader)?;
        proof {
            assert(s.take(1).drop_last() =~= Seq::<u8>::empty());
        }
        Ok(v as usize)
    } else if n == 2 {
        let v = read_data_u16(reader)?;
        Ok(v as usize)
    } else {
        let v = read_data_u32(reader)?;
        Ok(v as usize)
    }
}

pub fn unpack_bin_header<'a, R: BufferedRead<'a>>(reader: &mut R) -> (r: Result<usize, UnpackError>)
    ensures
        decoded(old(reader).remaining(), final(reader).remaining(), r, spec_unpack_bin_header(old(reader).remaining())),
{
    let ghost s = reader.remaining();
    let c = read_code(reader)?;
    proof {
        lemma_classify_inverse(s[0]);
        assert(reader.remaining() == s.skip(1));
    }
    match c {
        Code::Bin8 => read_len(reader, 1),
        Code::Bin16 => read_len(reader, 2),
        Code::Bin32 => read_len(reader, 4),
        e => Err(UnpackError::TypeMismatch(e, "binary header")),
    }
}

pub open spec fn spec_unpack_str_header(s: Seq<u8>) -> (Result<usize, UnpackError>, int) {
    with_code(
        s,
        if 0xa0 <= s[0] <= 0xbf {
            (Ok((s[0] - 0xa0) as usize), 1)
        } else if s[0] == STR8 {
            sized(s, 1)
        } else if s[0] == STR16 {
            sized(s, 2)
        } else if s[0] == STR32 {
            sized(s, 4)
        } else {
            mismatch(s, "str header")
        },
    )
}

pub fn unpack_str_header<'a, R: BufferedRead<'a>>(reader: &mut R) -> (r: Result<usize, UnpackError>)
    ensures
        decoded(old(reader).remaining(), final(reader).remaining(), r, spec_unpack_str_header(old(reader).remaining())),
{
    let ghost s = reader.remaining();
    let c = read_code(reader)?;
    proof {
        lemma_classify_inverse(s[0]);
        assert(reader.remaining() == s.skip(1));
    }
    match c {
        Code::FixStr(v) => Ok(v as usize),
        Code::Str8 => read_len(reader, 1),
        Code::Str16 => read_len(reader, 2),
        Code::Str32 => read_len(reader, 4),
        e => Err(UnpackError::TypeMismatch(e, "str header")),
    }
}

pub open spec fn spec_unpack_array_header(s: Seq<u8>) -> (Result<usize, UnpackError>, int) {
    with_code(
        s,
        if 0x90 <= s[0] <= 0x9f {
            (Ok((s[0] - 0x90) as usize), 1)
        } else if s[0] == ARRAY16 {
            sized(s, 2)
        } else if s[0] == ARRAY32 {
            sized(s, 4)
        } else {
            mismatch(s, "array header")
        },
    )
}

pub fn unpack_array_header<'a, R: BufferedRead<'a>>(reader: &mut R) -> (r: Result<usize, UnpackError>)
    ensures
        decoded(old(reader).remaining(), final(reader).remaining(), r, spec_unpack_array_header(old(reader).remaining())),
{
    let ghost s = reader.remaining();
    let c = read_code(reader)?;
    proof {
        lemma_classify_inverse(s[0]);
        assert(reader.remaining() == s.skip(1));
    }
    match c {
        Code::FixArray(v) => Ok(v as usize),
        Code::Array16 => read_len(reader, 2),
        Code::Array32 => read_len(reader, 4),
        e => Err(UnpackError::TypeMismatch(e, "array header")),
    }
}

/// The same as `unpack_array_header`, under its shorter name.
pub fn unpack_ary_header<'a, R: BufferedRead<'a>>(reader: &mut R) -> (r: Result<usize, UnpackError>)
    ensures
        decoded(old(reader).remaining(), final(reader).remaining(), r, spec_unpack_array_header(old(reader).remaining())),
{
    unpack_array_header(reader)
}

pub open spec fn spec_unpack_map_header(s: Seq<u8>) -> (Result<usize, UnpackError>, int) {
    with_code(
        s,
        if 0x80 <= s[0] <= 0x8f {
            (Ok((s[0] - 0x80) as usize), 1)
        } else if s[0] == MAP16 {
            sized(s, 2)
        } else if s[0] == MAP32 {
            sized(s, 4)
        } else {
            mismatch(s, "map header")
        },
    )
}

pub fn unpack_map_header<'a, R: BufferedRead<'a>>(reader: &mut R) -> (r: Result<usize, UnpackError>)
    ensures
        decoded(old(reader).remaining(), final(reader).remaining(), r, spec_unpack_map_header(old(reader).remaining())),
{
    let ghost s = reader.remaining();
    let c = read_code(reader)?;
    proof {
        lemma_classify_inverse(s[0]);
        assert(reader.remaining() == s.skip(1));
    }
    match c {
        Code::FixMap(v) => Ok(v as usize),
        Code::Map16 => read_len(reader, 2),
        Code::Map32 => read_len(reader, 4),
        e => Err(UnpackError::TypeMismatch(e, "map header")),
    }
}

/// `len` payload bytes at the front of `s`; on a short input nothing is
/// consumed.
pub open spec fn spec_data(s: Seq<u8>, len: int) -> (Result<Seq<u8>, UnpackError>, int) {
    if s.len() < len {
        (Err(eof()), 0)
    } else {
        (Ok(s.take(len)), len)
    }
}

/// A header decoder followed by the payload whose length it gave.
pub open spec fn with_payload(s: Seq<u8>, h: (Result<usize, UnpackError>, int)) -> (
    Result<Seq<u8>, UnpackError>,
    int,
) {
    match h.0 {
        Err(e) => (Err(e), h.1),
        Ok(n) => if s.len() < h.1 + n {
            (Err(eof()), h.1)
        } else {
            (Ok(s.subrange(h.1, h.1 + n)), h.1 + n)
        },
    }
}

pub open spec fn view_ref<'a>(r: Result<&'a [u8], UnpackError>) -> Result<Seq<u8>, UnpackError> {
    match r {
        Ok(b) => Ok(b@),
        Err(e) => Err(e),
    }
}

pub open spec fn view_vec(r: Result<Vec<u8>, UnpackError>) -> Result<Seq<u8>, UnpackError> {
    match r {
        Ok(b) => Ok(b@),
        Err(e) => Err(e),
    }
}

/// Borrows the next `len` bytes from the backing slice.
pub fn unpack_data_ref<'a, R: BufferedRead<'a>>(reader: &mut R, len: usize) -> (r: Result<&'a [u8], UnpackError>)
    ensures
        decoded(old(reader).remaining(), final(reader).remaining(), view_ref(r), spec_data(old(reader).remaining(), len as int)),
{
    let buf = reader.fill_buf();
    if len > buf.len() {
        return Err(UnpackError::InvalidData(DataError::UnexpectedEof));
    }
    let out = slice_subrange(buf, 0, len);
    reader.consume(len);
    Ok(out)
}

/// Copies the next `len` bytes.
pub fn unpack_data<'a, R: BufferedRead<'a>>(reader: &mut R, len: usize) -> (r: Result<Vec<u8>, UnpackError>)
    ensures
        decoded(old(reader).remaining(), final(reader).remaining(), view_vec(r), spec_data(old(reader).remaining(), len as int)),
{
    let b = unpack_data_ref(reader, len)?;
    Ok(slice_to_vec(b))
}

/// The same as `unpack_data`: the payload of a binary or a string.
pub fn unpack_bin_data<'a, R: BufferedRead<'a>>(reader: &mut R, len: usize) -> (r: Result<Vec<u8>, UnpackError>)
    ensures
        decoded(old(reader).remaining(), final(reader).remaining(), view_vec(r), spec_data(old(reader).remaining(), len as int)),
{
    unpack_data(reader, len)
}

pub fn unpack_bin<'a, R: BufferedRead<'a>>(reader: &mut R) -> (r: Result<Vec<u8>, UnpackError>)
    ensures
        decoded(old(reader).remaining(), final(reader).remaining(), view_vec(r),
            with_payload(old(reader).remaining(), spec_unpack_bin_header(old(reader).remaining()))),
{
    let len = unpack_bin_header(reader)?;
    unpack_data(reader, len)
}

/// Zero-copy: the payload is borrowed from the reader's backing slice.
pub fn unpack_bin_ref<'a, R: BufferedRead<'a>>(reader: &mut R) -> (r: Result<&'a [u8], UnpackError>)
    ensures
        decoded(old(reader).remaining(), final(reader).remaining(), view_ref(r),
            with_payload(old(reader).remaining(), spec_unpack_bin_header(old(reader).remaining()))),
{
    let len = unpack_bin_header(reader)?;
    unpack_data_ref(reader, len)
}

/// The extension type byte at index `i`.
pub open spec fn tag_at(s: Seq<u8>, i: int) -> i8 {
    signed_of(be_prefix(s.skip(i), 1), 1) as i8
}

pub open spec fn spec_ext_type_data(s: Seq<u8>, len: int) -> (Result<(i8, Seq<u8>), UnpackError>, int) {
    if s.len() < 1 {
        (Err(eof()), 0)
    } else if s.len() < 1 + len {
        (Err(eof()), 1)
    } else {
        (Ok((tag_at(s, 0), s.subrange(1, 1 + len))), 1 + len)
    }
}

pub open spec fn view_typed_vec(r: Result<(i8, Vec<u8>), UnpackError>) -> Result<(i8, Seq<u8>), UnpackError> {
    match r {
        Ok((t, b)) => Ok((t, b@)),
        Err(e) => Err(e),
    }
}

pub open spec fn view_typed_ref<'a>(r: Result<(i8, &'a [u8]), UnpackError>) -> Result<(i8, Seq<u8>), UnpackError> {
    match r {
        Ok((t, b)) => Ok((t, b@)),
        Err(e) => Err(e),
    }
}

/// An extension's type byte, then its `len` payload bytes.
pub fn unpack_ext_type_data<'a, R: BufferedRead<'a>>(reader: &mut R, len: usize) -> (r: Result<(i8, Vec<u8>), UnpackError>)
    ensures
        decoded(old(reader).remaining(), final(reader).remaining(), view_typed_vec(r),
            spec_ext_type_data(old(reader).remaining(), len as int)),
{
    let ty = read_data_i8(reader)?;
    let data = unpack_data(reader, len)?;
    Ok((ty, data))
}

pub fn unpack_ext_type_data_ref<'a, R: BufferedRead<'a>>(reader: &mut R, len: usize) -> (r: Result<(i8, &'a [u8]), UnpackError>)
    ensures
        decoded(old(reader).remaining(), final(reader).remaining(), view_typed_ref(r),
            spec_ext_type_data(old(reader).remaining(), len as int)),
{
    let ty = read_data_i8(reader)?;
    let data = unpack_data_ref(reader, len)?;
    Ok((ty, data))
}

} // verus!
