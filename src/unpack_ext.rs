//! Decoding of extension headers, fixed-size extensions and timestamps.
use crate::code::{
    lemma_classify_inverse, Code, EXT16, EXT32, EXT8, FIXEXT1, FIXEXT16, FIXEXT2, FIXEXT4,
    FIXEXT8,
};
use crate::error::{eof, DataError, UnpackError};
use crate::primitive::{
    be_prefix, lemma_be_prefix_one, lemma_be_value_bound, lemma_pow256_values, read_data,
    read_data_i64, read_data_i8, read_data_u16, read_data_u32, read_data_u64, read_data_u8,
    signed_of,
};
use crate::read::{
    advanced, lemma_advanced_none, lemma_advanced_take, lemma_advanced_trans, BufferedRead,
};
use crate::unpack::{after_code, decoded, mismatch, read_code, tag_at, with_code};
use vstd::array::{array_fill_for_copy_types, ref_mut_array_unsizing_coercion};
use vstd::prelude::*;

verus! {

broadcast use {lemma_advanced_trans, lemma_advanced_none, lemma_advanced_take, lemma_be_prefix_one};

/// A fixed-size extension: code, type byte, then `n` payload bytes.
pub open spec fn spec_unpack_fixext(s: Seq<u8>, code: u8, n: int, name: &'static str) -> (
    Result<(i8, Seq<u8>), UnpackError>,
    int,
) {
    with_code(
        s,
        if s[0] == code {
            if s.len() < 2 {
                (Err(eof()), 1)
            } else if s.len() < 2 + n {
                (Err(eof()), 2)
            } else {
                (Ok((tag_at(s, 1), s.subrange(2, 2 + n))), 2 + n)
            }
        } else {
            mismatch(s, name)
        },
    )
}

pub open spec fn view_fixext<const N: usize>(r: Result<(i8, [u8; N]), UnpackError>) -> Result<
    (i8, Seq<u8>),
    UnpackError,
> {
    match r {
        Ok((t, a)) => Ok((t, a@)),
        Err(e) => Err(e),
    }
}

/// Reads exactly `N` bytes into an array; on a short input nothing is
/// consumed.
fn read_fixext_data<'a, R: BufferedRead<'a>, const N: usize>(reader: &mut R) -> (r: Result<
    [u8; N],
    UnpackError,
>)
    ensures
        old(reader).remaining().len() >= N ==> (r matches Ok(a) && a@ == old(reader).remaining().take(N as int))
            && advanced(old(reader).remaining(), final(reader).remaining(), N as int),
        old(reader).remaining().len() < N ==> r == Err::<[u8; N], UnpackError>(eof()) && final(reader).remaining() == old(reader).remaining(),
{
    let mut buf: [u8; N] = array_fill_for_copy_types(0u8);
    read_data(reader, ref_mut_array_unsizing_coercion(&mut buf))?;
    Ok(buf)
}

/// The type byte, then `N` payload bytes, after a fix ext code.
fn read_fixext_body<'a, R: BufferedRead<'a>, const N: usize>(reader: &mut R) -> (r: Result<
    (i8, [u8; N]),
    UnpackError,
>)
    ensures
        ({
            let s = old(reader).remaining();
            let d = if s.len() < 1 {
                (Err(eof()), 0)
            } else if s.len() < 1 + N {
                (Err(eof()), 1)
            } else {
                (Ok((tag_at(s, 0), s.subrange(1, 1 + N))), 1 + N)
            };
            decoded(s, final(reader).remaining(), view_fixext(r), d)
        }),
{
    let id = read_data_i8(reader)?;
    let buf = read_fixext_data::<R, N>(reader)?;
    Ok((id, buf))
}

/// After the code, the body decoder sees the same bytes one place later.
proof fn lemma_fixext_shift(s: Seq<u8>, n: int)
    requires
        s.len() >= 1,
        n >= 0,
    ensures
        s.len() >= 2 ==> tag_at(s.skip(1), 0) == tag_at(s, 1),
        s.len() >= 2 + n ==> s.skip(1).subrange(1, 1 + n) == s.subrange(2, 2 + n),
{
    assert(s.skip(1).skip(0) =~= s.skip(1));
    if s.len() >= 2 + n {
        assert(s.skip(1).subrange(1, 1 + n) =~= s.subrange(2, 2 + n));
    }
}

pub open spec fn spec_unpack_fixext1(s: Seq<u8>) -> (Result<(i8, u8), UnpackError>, int) {
    with_code(
        s,
        if s[0] == FIXEXT1 {
            if s.len() < 2 {
                (Err(eof()), 1)
            } else if s.len() < 3 {
                (Err(eof()), 2)
            } else {
                (Ok((tag_at(s, 1), s[2])), 3)
            }
        } else {
            mismatch(s, "fixext1 header")
        },
    )
}

pub fn unpack_fixext1<'a, R: BufferedRead<'a>>(reader: &mut R) -> (r: Result<(i8, u8), UnpackError>)
    ensures
        decoded(old(reader).remaining(), final(reader).remaining(), r, spec_unpack_fixext1(old(reader).remaining())),
{
    let ghost s = reader.remaining();
    let c = read_code(reader)?;
    proof {
        lemma_classify_inverse(s[0]);
    }
    match c {
        Code::FixExt1 => {
            let ty = read_data_i8(reader)?;
            let data = read_data_u8(reader)?;
            Ok((ty, data))
        },
        e => Err(UnpackError::TypeMismatch(e, "fixext1 header")),
    }
}

pub fn unpack_fixext2<'a, R: BufferedRead<'a>>(reader: &mut R) -> (r: Result<(i8, [u8; 2]), UnpackError>)
    ensures
        decoded(old(reader).remaining(), final(reader).remaining(), view_fixext(r),
            spec_unpack_fixext(old(reader).remaining(), FIXEXT2, 2, "fixext2 header")),
{
    let ghost s = reader.remaining();
    let c = read_code(reader)?;
    proof {
        lemma_classify_inverse(s[0]);
        lemma_fixext_shift(s, 2);
    }
    match c {
        Code::FixExt2 => read_fixext_body::<R, 2>(reader),
        e => Err(UnpackError::TypeMismatch(e, "fixext2 header")),
    }
}

pub fn unpack_fixext4<'a, R: BufferedRead<'a>>(reader: &mut R) -> (r: Result<(i8, [u8; 4]), UnpackError>)
    ensures
        decoded(old(reader).remaining(), final(reader).remaining(), view_fixext(r),
            spec_unpack_fixext(old(reader).remaining(), FIXEXT4, 4, "fixext4 header")),
{
    let ghost s = reader.remaining();
    let c = read_code(reader)?;
    proof {
        lemma_classify_inverse(s[0]);
        lemma_fixext_shift(s, 4);
    }
    match c {
        Code::FixExt4 => read_fixext_body::<R, 4>(reader),
        e => Err(UnpackError::TypeMismatch(e, "fixext4 header")),
    }
}

pub fn unpack_fixext8<'a, R: BufferedRead<'a>>(reader: &mut R) -> (r: Result<(i8, [u8; 8]), UnpackError>)
    ensures
        decoded(old(reader).remaining(), final(reader).remaining(), view_fixext(r),
            spec_unpack_fixext(old(reader).remaining(), FIXEXT8, 8, "fixext8 header")),
{
    let ghost s = reader.remaining();
    let c = read_code(reader)?;
    proof {
        lemma_classify_inverse(s[0]);
        lemma_fixext_shift(s, 8);
    }
    match c {
        Code::FixExt8 => read_fixext_body::<R, 8>(reader),
        e => Err(UnpackError::TypeMismatch(e, "fixext8 header")),
    }
}

pub fn unpack_fixext16<'a, R: BufferedRead<'a>>(reader: &mut R) -> (r: Result<(i8, [u8; 16]), UnpackError>)
    ensures
        decoded(old(reader).remaining(), final(reader).remaining(), view_fixext(r),
            spec_unpack_fixext(old(reader).remaining(), FIXEXT16, 16, "fixext16 header")),
{
    let ghost s = reader.remaining();
    let c = read_code(reader)?;
    proof {
        lemma_classify_inverse(s[0]);
        lemma_fixext_shift(s, 16);
    }
    match c {
        Code::FixExt16 => read_fixext_body::<R, 16>(reader),
        e => Err(UnpackError::TypeMismatch(e, "fixext16 header")),
    }
}

/// An extension header whose length field is `n` bytes and says `len`:
/// the type byte follows it.
pub open spec fn ext_hdr(s: Seq<u8>, n: int, len: nat) -> (Result<(u32, i8), UnpackError>, int) {
    if s.len() < 1 + n {
        (Err(eof()), 1)
    } else if s.len() < 2 + n {
        (Err(eof()), 1 + n)
    } else {
        (Ok((len as u32, tag_at(s, 1 + n))), 2 + n)
    }
}

pub open spec fn spec_unpack_ext_header(s: Seq<u8>) -> (Result<(u32, i8), UnpackError>, int) {
    with_code(
        s,
        if s[0] == FIXEXT1 {
            ext_hdr(s, 0, 1)
        } else if s[0] == FIXEXT2 {
            ext_hdr(s, 0, 2)
        } else if s[0] == FIXEXT4 {
            ext_hdr(s, 0, 4)
        } else if s[0] == FIXEXT8 {
            ext_hdr(s, 0, 8)
        } else if s[0] == FIXEXT16 {
            ext_hdr(s, 0, 16)
        } else if s[0] == EXT8 {
            ext_hdr(s, 1, after_code(s, 1))
        } else if s[0] == EXT16 {
            ext_hdr(s, 2, after_code(s, 2))
        } else if s[0] == EXT32 {
            ext_hdr(s, 4, after_code(s, 4))
        } else {
            mismatch(s, "ext header")
        },
    )
}

/// Reads an extension header: the payload length and the type.
pub fn unpack_ext_header<'a, R: BufferedRead<'a>>(reader: &mut R) -> (r: Result<(u32, i8), UnpackError>)
    ensures
        decoded(old(reader).remaining(), final(reader).remaining(), r, spec_unpack_ext_header(old(reader).remaining())),
{
    let ghost s = reader.remaining();
    let c = read_code(reader)?;
    proof {
        lemma_classify_inverse(s[0]);
        lemma_pow256_values();
        if s.len() >= 3 {
            lemma_be_value_bound(s.skip(1).take(2));
        }
        if s.len() >= 5 {
            lemma_be_value_bound(s.skip(1).take(4));
        }
    }
    let len: u32 = match c {
        Code::FixExt1 => 1,
        Code::FixExt2 => 2,
        Code::FixExt4 => 4,
        Code::FixExt8 => 8,
        Code::FixExt16 => 16,
        Code::Ext8 => read_data_u8(reader)? as u32,
        Code::Ext16 => read_data_u16(reader)? as u32,
        Code::Ext32 => read_data_u32(reader)?,
        e => {
            return Err(UnpackError::TypeMismatch(e, "ext header"));
        },
    };
    let ty = read_data_i8(reader)?;
    Ok((len, ty))
}

/// The tag that marks a timestamp.
pub open spec fn ts_tag_ok(s: Seq<u8>, i: int) -> bool {
    tag_at(s, i) == -1
}

pub open spec fn bad_timestamp() -> UnpackError {
    UnpackError::InvalidData(DataError::InvalidTimestamp)
}

pub open spec fn spec_unpack_timestamp32(s: Seq<u8>) -> (Result<u32, UnpackError>, int) {
    with_code(
        s,
        if s[0] == FIXEXT4 {
            if s.len() < 2 {
                (Err(eof()), 1)
            } else if !ts_tag_ok(s, 1) {
                (Err(bad_timestamp()), 2)
            } else if s.len() < 6 {
                (Err(eof()), 2)
            } else {
                (Ok(be_prefix(s.skip(2), 4) as u32), 6)
            }
        } else {
            mismatch(s, "timestamp32 header")
        },
    )
}

/// Reads a timestamp32: whole seconds.
pub fn unpack_timestamp32<'a, R: BufferedRead<'a>>(reader: &mut R) -> (r: Result<u32, UnpackError>)
    ensures
        decoded(old(reader).remaining(), final(reader).remaining(), r, spec_unpack_timestamp32(old(reader).remaining())),
{
    let ghost s = reader.remaining();
    let c = read_code(reader)?;
    proof {
        lemma_classify_inverse(s[0]);
    }
    match c {
        Code::FixExt4 => {
            let type_tag = read_data_i8(reader)?;
            if type_tag == -1 {
                read_data_u32(reader)
            } else {
                Err(UnpackError::InvalidData(DataError::InvalidTimestamp))
            }
        },
        e => Err(UnpackError::TypeMismatch(e, "timestamp32 header")),
    }
}

/// The seconds of a timestamp64 payload: its low 34 bits.
pub open spec fn ts64_sec(raw: nat) -> nat {
    raw % 0x4_0000_0000
}

/// The nanoseconds of a timestamp64 payload: its high 30 bits.
pub open spec fn ts64_nsec(raw: nat) -> nat {
    (raw / 0x4_0000_0000) % 0x4000_0000
}

pub open spec fn spec_unpack_timestamp64(s: Seq<u8>) -> (Result<(u64, u32), UnpackError>, int) {
    with_code(
        s,
        if s[0] == FIXEXT8 {
            if s.len() < 2 {
                (Err(eof()), 1)
            } else if !ts_tag_ok(s, 1) {
                (Err(bad_timestamp()), 2)
            } else if s.len() < 10 {
                (Err(eof()), 2)
            } else {
                let raw = be_prefix(s.skip(2), 8);
                (Ok((ts64_sec(raw) as u64, ts64_nsec(raw) as u32)), 10)
            }
        } else {
            mismatch(s, "timestamp64 header")
        },
    )
}

/// Splits a timestamp64 payload: seconds are the low 34 bits, nanoseconds
/// the 30 bits above them.
pub fn split_timestamp64(raw: u64) -> (r: (u64, u32))
    ensures
        r.0 == ts64_sec(raw as nat),
        r.1 == ts64_nsec(raw as nat),
{
    let sec = raw & 0x3_ffff_ffff;
    let nsec = ((raw >> 34) & 0x3fff_ffff) as u32;
    assert(raw & 0x3_ffff_ffff == raw % 0x4_0000_0000) by (bit_vector);
    assert((raw >> 34) & 0x3fff_ffff == (raw / 0x4_0000_0000) % 0x4000_0000) by (bit_vector);
    (sec, nsec)
}

/// Reads a timestamp64: seconds and nanoseconds.
pub fn unpack_timestamp64<'a, R: BufferedRead<'a>>(reader: &mut R) -> (r: Result<(u64, u32), UnpackError>)
    ensures
        decoded(old(reader).remaining(), final(reader).remaining(), r, spec_unpack_timestamp64(old(reader).remaining())),
{
    let ghost s = reader.remaining();
    let c = read_code(reader)?;
    proof {
        lemma_classify_inverse(s[0]);
    }
    match c {
        Code::FixExt8 => {
            let type_tag = read_data_i8(reader)?;
            if type_tag == -1 {
                proof {
                    lemma_pow256_values();
                    if s.len() >= 10 {
                        lemma_be_value_bound(s.skip(2).take(8));
                    }
                }
                let v = read_data_u64(reader)?;
                Ok(split_timestamp64(v))
            } else {
                Err(UnpackError::InvalidData(DataError::InvalidTimestamp))
            }
        },
        e => Err(UnpackError::TypeMismatch(e, "timestamp64 header")),
    }
}

pub open spec fn spec_unpack_timestamp96(s: Seq<u8>) -> (Result<(i64, u32), UnpackError>, int) {
    with_code(
        s,
        if s[0] == EXT8 {
            if s.len() < 2 {
                (Err(eof()), 1)
            } else if s.len() < 3 {
                (Err(eof()), 2)
            } else if s[1] != 12 || !ts_tag_ok(s, 2) {
                (Err(bad_timestamp()), 3)
            } else if s.len() < 7 {
                (Err(eof()), 3)
            } else if s.len() < 15 {
                (Err(eof()), 7)
            } else {
                (
                    Ok(
                        (
                            signed_of(be_prefix(s.skip(7), 8), 8) as i64,
                            be_prefix(s.skip(3), 4) as u32,
                        ),
                    ),
                    15,
                )
            }
        } else {
            mismatch(s, "timestamp96 header")
        },
    )
}

/// Reads a timestamp96: a length of 12 and type -1, then nanoseconds (4
/// bytes) and signed seconds (8 bytes).
pub fn unpack_timestamp96<'a, R: BufferedRead<'a>>(reader: &mut R) -> (r: Result<(i64, u32), UnpackError>)
    ensures
        decoded(old(reader).remaining(), final(reader).remaining(), r, spec_unpack_timestamp96(old(reader).remaining())),
{
    let ghost s = reader.remaining();
    let c = read_code(reader)?;
    proof {
        lemma_classify_inverse(s[0]);
    }
    match c {
        Code::Ext8 => {
            let size = read_data_u8(reader)?;
            let type_tag = read_data_i8(reader)?;
            if size == 12 && type_tag == -1 {
                let nsec = read_data_u32(reader)?;
                let sec = read_data_i64(reader)?;
                Ok((sec, nsec))
            } else {
                Err(UnpackError::InvalidData(DataError::InvalidTimestamp))
            }
        },
        e => Err(UnpackError::TypeMismatch(e, "timestamp96 header")),
    }
}

} // verus!
