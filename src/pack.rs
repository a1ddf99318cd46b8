//! Encoding of one element at a time. Each function appends to the writer
//! exactly the bytes that its `ensures` names, so a sequence of calls writes
//! the concatenation of their encodings.
use crate::code::{
    ARRAY16, ARRAY32, BIN16, BIN32, BIN8, EXT16, EXT32, EXT8, FIXEXT1, FIXEXT16, FIXEXT2, FIXEXT4,
    FIXEXT8, FIX_ARRAY, FIX_MAP, FIX_STR, FALSE, FLOAT32, FLOAT64, INT16, INT32, INT64, INT8, MAP16,
    MAP32, NIL, POS_INT, STR16, STR32, STR8, TRUE, UINT16, UINT32, UINT64, UINT8,
};
use crate::error::{PackError, RangeError};
use crate::primitive::{
    be_bytes, lemma_pow256_values, twos, write_all, write_data_f32, write_data_f64, write_data_i16,
    write_data_i32, write_data_i64, write_data_i8, write_data_u16, write_data_u32, write_data_u64,
    write_data_u8,
};
use vstd::prelude::*;
use vstd::string::StringSliceAdditionalSpecFns;

verus! {

/// A length that a 32-bit length field can hold.
pub open spec fn len_fits(n: nat) -> bool {
    n < 0x1_0000_0000
}

pub open spec fn enc_u8(v: nat) -> Seq<u8> {
    seq![UINT8, v as u8]
}

pub open spec fn enc_u16(v: nat) -> Seq<u8> {
    seq![UINT16] + be_bytes(v, 2)
}

pub open spec fn enc_u32(v: nat) -> Seq<u8> {
    seq![UINT32] + be_bytes(v, 4)
}

pub open spec fn enc_u64(v: nat) -> Seq<u8> {
    seq![UINT64] + be_bytes(v, 8)
}

pub open spec fn enc_i8(v: int) -> Seq<u8> {
    seq![INT8, twos(v, 1) as u8]
}

pub open spec fn enc_i16(v: int) -> Seq<u8> {
    seq![INT16] + be_bytes(twos(v, 2), 2)
}

pub open spec fn enc_i32(v: int) -> Seq<u8> {
    seq![INT32] + be_bytes(twos(v, 4), 4)
}

pub open spec fn enc_i64(v: int) -> Seq<u8> {
    seq![INT64] + be_bytes(twos(v, 8), 8)
}

/// The narrowest encoding of a non-negative integer: the shortest of
/// positive fix int, uint 8, 16, 32 and 64 whose range holds it.
pub open spec fn enc_uint(v: nat) -> Seq<u8> {
    if v < 0x80 {
        seq![v as u8]
    } else if v < 0x100 {
        enc_u8(v)
    } else if v < 0x1_0000 {
        enc_u16(v)
    } else if v < 0x1_0000_0000 {
        enc_u32(v)
    } else {
        enc_u64(v)
    }
}

/// The narrowest encoding of an integer: a non-negative one as unsigned,
/// a negative one as the shortest of negative fix int, int 8, 16, 32, 64.
pub open spec fn enc_int(v: int) -> Seq<u8> {
    if v >= 0 {
        enc_uint(v as nat)
    } else if v >= -32 {
        seq![twos(v, 1) as u8]
    } else if v >= -0x80 {
        enc_i8(v)
    } else if v >= -0x8000 {
        enc_i16(v)
    } else if v >= -0x8000_0000 {
        enc_i32(v)
    } else {
        enc_i64(v)
    }
}

pub open spec fn enc_bool(v: bool) -> Seq<u8> {
    if v {
        seq![TRUE]
    } else {
        seq![FALSE]
    }
}

/// The header of a string of `len` bytes.
pub open spec fn str_header(len: nat) -> Seq<u8> {
    if len < 32 {
        seq![(FIX_STR + len) as u8]
    } else if len < 0x100 {
        seq![STR8, len as u8]
    } else if len < 0x1_0000 {
        seq![STR16] + be_bytes(len, 2)
    } else {
        seq![STR32] + be_bytes(len, 4)
    }
}

/// The header of a binary of `len` bytes; there is no fix form.
pub open spec fn bin_header(len: nat) -> Seq<u8> {
    if len < 0x100 {
        seq![BIN8, len as u8]
    } else if len < 0x1_0000 {
        seq![BIN16] + be_bytes(len, 2)
    } else {
        seq![BIN32] + be_bytes(len, 4)
    }
}

pub open spec fn array_header(len: nat) -> Seq<u8> {
    if len < 16 {
        seq![(FIX_ARRAY + len) as u8]
    } else if len < 0x1_0000 {
        seq![ARRAY16] + be_bytes(len, 2)
    } else {
        seq![ARRAY32] + be_bytes(len, 4)
    }
}

pub open spec fn map_header(len: nat) -> Seq<u8> {
    if len < 16 {
        seq![(FIX_MAP + len) as u8]
    } else if len < 0x1_0000 {
        seq![MAP16] + be_bytes(len, 2)
    } else {
        seq![MAP32] + be_bytes(len, 4)
    }
}

/// The code and length field of an extension whose payload is `len` bytes:
/// fix ext for 1, 2, 4, 8 and 16; otherwise the narrowest of ext 8 (up to
/// 255), ext 16 (up to 65535) and ext 32.
pub open spec fn ext_len_header(len: nat) -> Seq<u8> {
    if len == 1 {
        seq![FIXEXT1]
    } else if len == 2 {
        seq![FIXEXT2]
    } else if len == 4 {
        seq![FIXEXT4]
    } else if len == 8 {
        seq![FIXEXT8]
    } else if len == 16 {
        seq![FIXEXT16]
    } else if len < 0x100 {
        seq![EXT8, len as u8]
    } else if 0x100 <= len < 0x1_0000 {
        seq![EXT16] + be_bytes(len, 2)
    } else {
        seq![EXT32] + be_bytes(len, 4)
    }
}

pub open spec fn ext_header(ext_type: i8, len: nat) -> Seq<u8> {
    ext_len_header(len).push(twos(ext_type as int, 1) as u8)
}

pub open spec fn enc_timestamp32(sec: nat) -> Seq<u8> {
    seq![FIXEXT4, 0xff] + be_bytes(sec, 4)
}

pub open spec fn enc_timestamp64(sec: nat, nsec: nat) -> Seq<u8> {
    seq![FIXEXT8, 0xff] + be_bytes(nsec * 0x4_0000_0000 + sec, 8)
}

pub open spec fn enc_timestamp96(sec: int, nsec: nat) -> Seq<u8> {
    seq![EXT8, 12, 0xff] + be_bytes(nsec, 4) + be_bytes(twos(sec, 8), 8)
}

/// The narrowest timestamp encoding: 32 bits for whole seconds below 2^32,
/// 64 bits for seconds below 2^34 with nanoseconds below 2^30, else 96 bits.
pub open spec fn enc_timestamp(sec: int, nsec: nat) -> Seq<u8> {
    if 0 <= sec < 0x1_0000_0000 && nsec == 0 {
        enc_timestamp32(sec as nat)
    } else if 0 <= sec < 0x4_0000_0000 && nsec < 0x4000_0000 {
        enc_timestamp64(sec as nat, nsec)
    } else {
        enc_timestamp96(sec, nsec)
    }
}

pub fn pack_nil(writer: &mut Vec<u8>) -> (r: Result<(), PackError>)
    ensures
        r is Ok,
        final(writer)@ == old(writer)@.push(NIL),
{
    write_data_u8(writer, NIL);
    Ok(())
}

pub fn pack_bool(writer: &mut Vec<u8>, v: bool) -> (r: Result<(), PackError>)
    ensures
        r is Ok,
        final(writer)@ == old(writer)@ + enc_bool(v),
{
    write_data_u8(writer, if v { TRUE } else { FALSE });
    assert(final(writer)@ =~= old(writer)@ + enc_bool(v));
    Ok(())
}

/// Writes `v` as a positive fix int; values of 128 and above are refused.
pub fn pack_pos_fixint(writer: &mut Vec<u8>, v: u8) -> (r: Result<(), PackError>)
    ensures
        v < 0x80 ==> r is Ok && final(writer)@ == old(writer)@.push(v),
        v >= 0x80 ==> r == Err::<(), PackError>(PackError::OutOfRange(RangeError::PosFixInt(v)))
            && final(writer)@ == old(writer)@,
{
    if v < 0x80 {
        write_data_u8(writer, POS_INT | v);
        assert(POS_INT | v == v) by (bit_vector);
        Ok(())
    } else {
        Err(PackError::OutOfRange(RangeError::PosFixInt(v)))
    }
}

/// Writes `v` as a negative fix int; only -32..=-1 are accepted.
pub fn pack_neg_fix_int(writer: &mut Vec<u8>, v: i8) -> (r: Result<(), PackError>)
    ensures
        -32 <= v < 0 ==> r is Ok && final(writer)@ == old(writer)@.push(twos(v as int, 1) as u8),
        !(-32 <= v < 0) ==> r == Err::<(), PackError>(
            PackError::OutOfRange(RangeError::NegFixInt(v)),
        ) && final(writer)@ == old(writer)@,
{
    if -32 <= v && v < 0 {
        write_data_i8(writer, v);
        Ok(())
    } else {
        Err(PackError::OutOfRange(RangeError::NegFixInt(v)))
    }
}

pub fn pack_u8(writer: &mut Vec<u8>, v: u8) -> (r: Result<(), PackError>)
    ensures
        r is Ok,
        final(writer)@ == old(writer)@ + enc_u8(v as nat),
{
    write_data_u8(writer, UINT8);
    write_data_u8(writer, v);
    assert(final(writer)@ =~= old(writer)@ + enc_u8(v as nat));
    Ok(())
}

pub fn pack_u16(writer: &mut Vec<u8>, v: u16) -> (r: Result<(), PackError>)
    ensures
        r is Ok,
        final(writer)@ == old(writer)@ + enc_u16(v as nat),
{
    write_data_u8(writer, UINT16);
    write_data_u16(writer, v);
    assert(final(writer)@ =~= old(writer)@ + enc_u16(v as nat));
    Ok(())
}

pub fn pack_u32(writer: &mut Vec<u8>, v: u32) -> (r: Result<(), PackError>)
    ensures
        r is Ok,
        final(writer)@ == old(writer)@ + enc_u32(v as nat),
{
    write_data_u8(writer, UINT32);
    write_data_u32(writer, v);
    assert(final(writer)@ =~= old(writer)@ + enc_u32(v as nat));
    Ok(())
}

pub fn pack_u64(writer: &mut Vec<u8>, v: u64) -> (r: Result<(), PackError>)
    ensures
        r is Ok,
        final(writer)@ == old(writer)@ + enc_u64(v as nat),
{
    write_data_u8(writer, UINT64);
    write_data_u64(writer, v);
    assert(final(writer)@ =~= old(writer)@ + enc_u64(v as nat));
    Ok(())
}

pub fn pack_i8(writer: &mut Vec<u8>, v: i8) -> (r: Result<(), PackError>)
    ensures
        r is Ok,
        final(writer)@ == old(writer)@ + enc_i8(v as int),
{
    write_data_u8(writer, INT8);
    write_data_i8(writer, v);
    assert(final(writer)@ =~= old(writer)@ + enc_i8(v as int));
    Ok(())
}

pub fn pack_i16(writer: &mut Vec<u8>, v: i16) -> (r: Result<(), PackError>)
    ensures
        r is Ok,
        final(writer)@ == old(writer)@ + enc_i16(v as int),
{
    write_data_u8(writer, INT16);
    write_data_i16(writer, v);
    assert(final(writer)@ =~= old(writer)@ + enc_i16(v as int));
    Ok(())
}

pub fn pack_i32(writer: &mut Vec<u8>, v: i32) -> (r: Result<(), PackError>)
    ensures
        r is Ok,
        final(writer)@ == old(writer)@ + enc_i32(v as int),
{
    write_data_u8(writer, INT32);
    write_data_i32(writer, v);
    assert(final(writer)@ =~= old(writer)@ + enc_i32(v as int));
    Ok(())
}

pub fn pack_i64(writer: &mut Vec<u8>, v: i64) -> (r: Result<(), PackError>)
    ensures
        r is Ok,
        final(writer)@ == old(writer)@ + enc_i64(v as int),
{
    write_data_u8(writer, INT64);
    write_data_i64(writer, v);
    assert(final(writer)@ =~= old(writer)@ + enc_i64(v as int));
    Ok(())
}

pub fn pack_from_u8(writer: &mut Vec<u8>, v: u8) -> (r: Result<(), PackError>)
    ensures
        r is Ok,
        final(writer)@ == old(writer)@ + enc_uint(v as nat),
{
    if v >= 0x80 {
        pack_u8(writer, v)
    } else {
        let r = pack_pos_fixint(writer, v);
        assert(final(writer)@ =~= old(writer)@ + enc_uint(v as nat));
        r
    }
}

pub fn pack_from_u16(writer: &mut Vec<u8>, v: u16) -> (r: Result<(), PackError>)
    ensures
        r is Ok,
        final(writer)@ == old(writer)@ + enc_uint(v as nat),
{
    if v >= 0x100 {
        pack_u16(writer, v)
    } else {
        pack_from_u8(writer, v as u8)
    }
}

pub fn pack_from_u32(writer: &mut Vec<u8>, v: u32) -> (r: Result<(), PackError>)
    ensures
        r is Ok,
        final(writer)@ == old(writer)@ + enc_uint(v as nat),
{
    if v >= 0x1_0000 {
        pack_u32(writer, v)
    } else {
        pack_from_u16(writer, v as u16)
    }
}

pub fn pack_from_u64(writer: &mut Vec<u8>, v: u64) -> (r: Result<(), PackError>)
    ensures
        r is Ok,
        final(writer)@ == old(writer)@ + enc_uint(v as nat),
{
    if v >= 0x1_0000_0000 {
        pack_u64(writer, v)
    } else {
        pack_from_u32(writer, v as u32)
    }
}

pub fn pack_from_i8(writer: &mut Vec<u8>, v: i8) -> (r: Result<(), PackError>)
    ensures
        r is Ok,
        final(writer)@ == old(writer)@ + enc_int(v as int),
{
    if v >= 0 {
        pack_from_u8(writer, v as u8)
    } else if v >= -32 {
        let r = pack_neg_fix_int(writer, v);
        assert(final(writer)@ =~= old(writer)@ + enc_int(v as int));
        r
    } else {
        pack_i8(writer, v)
    }
}

pub fn pack_from_i16(writer: &mut Vec<u8>, v: i16) -> (r: Result<(), PackError>)
    ensures
        r is Ok,
        final(writer)@ == old(writer)@ + enc_int(v as int),
{
    if v >= 0 {
        pack_from_u16(writer, v as u16)
    } else if v >= -0x80 {
        pack_from_i8(writer, v as i8)
    } else {
        pack_i16(writer, v)
    }
}

pub fn pack_from_i32(writer: &mut Vec<u8>, v: i32) -> (r: Result<(), PackError>)
    ensures
        r is Ok,
        final(writer)@ == old(writer)@ + enc_int(v as int),
{
    if v >= 0 {
        pack_from_u32(writer, v as u32)
    } else if v >= -0x8000 {
        pack_from_i16(writer, v as i16)
    } else {
        pack_i32(writer, v)
    }
}

pub fn pack_from_i64(writer: &mut Vec<u8>, v: i64) -> (r: Result<(), PackError>)
    ensures
        r is Ok,
        final(writer)@ == old(writer)@ + enc_int(v as int),
{
    if v >= 0 {
        pack_from_u64(writer, v as u64)
    } else if v >= -0x8000_0000 {
        pack_from_i32(writer, v as i32)
    } else {
        pack_i64(writer, v)
    }
}

/// Writes a single-precision float, given as its IEEE 754 bit pattern.
pub fn pack_f32(writer: &mut Vec<u8>, bits: u32) -> (r: Result<(), PackError>)
    ensures
        r is Ok,
        final(writer)@ == old(writer)@ + (seq![FLOAT32] + be_bytes(bits as nat, 4)),
{
    write_data_u8(writer, FLOAT32);
    write_data_f32(writer, bits);
    assert(final(writer)@ =~= old(writer)@ + (seq![FLOAT32] + be_bytes(bits as nat, 4)));
    Ok(())
}

/// Writes a double-precision float, given as its IEEE 754 bit pattern.
pub fn pack_f64(writer: &mut Vec<u8>, bits: u64) -> (r: Result<(), PackError>)
    ensures
        r is Ok,
        final(writer)@ == old(writer)@ + (seq![FLOAT64] + be_bytes(bits as nat, 8)),
{
    write_data_u8(writer, FLOAT64);
    write_data_f64(writer, bits);
    assert(final(writer)@ =~= old(writer)@ + (seq![FLOAT64] + be_bytes(bits as nat, 8)));
    Ok(())
}

fn pack_str_header(writer: &mut Vec<u8>, len: usize)
    requires
        len_fits(len as nat),
    ensures
        final(writer)@ == old(writer)@ + str_header(len as nat),
{
    if len < 32 {
        write_data_u8(writer, FIX_STR + len as u8);
    } else if len < 0x100 {
        write_data_u8(writer, STR8);
        write_data_u8(writer, len as u8);
    } else if len < 0x1_0000 {
        write_data_u8(writer, STR16);
        write_data_u16(writer, len as u16);
    } else {
        write_data_u8(writer, STR32);
        write_data_u32(writer, len as u32);
    }
    assert(final(writer)@ =~= old(writer)@ + str_header(len as nat));
}

/// Writes a UTF-8 string: the narrowest string header, then its bytes.
pub fn pack_str(writer: &mut Vec<u8>, v: &str) -> (r: Result<(), PackError>)
    requires
        len_fits(v.spec_bytes().len()),
    ensures
        r is Ok,
        final(writer)@ == old(writer)@ + str_header(v.spec_bytes().len()) + v.spec_bytes(),
{
    let bytes = v.as_bytes();
    pack_str_header(writer, bytes.len());
    write_all(writer, bytes);
    Ok(())
}

/// Writes bytes under a string header as they are, valid UTF-8 or not.
pub fn pack_str_from_slice(writer: &mut Vec<u8>, v: &[u8]) -> (r: Result<(), PackError>)
    requires
        len_fits(v@.len()),
    ensures
        r is Ok,
        final(writer)@ == old(writer)@ + str_header(v@.len()) + v@,
{
    pack_str_header(writer, v.len());
    write_all(writer, v);
    Ok(())
}

pub fn pack_bin(writer: &mut Vec<u8>, v: &[u8]) -> (r: Result<(), PackError>)
    requires
        len_fits(v@.len()),
    ensures
        r is Ok,
        final(writer)@ == old(writer)@ + bin_header(v@.len()) + v@,
{
    let len = v.len();
    if len < 0x100 {
        write_data_u8(writer, BIN8);
        write_data_u8(writer, len as u8);
    } else if len < 0x1_0000 {
        write_data_u8(writer, BIN16);
        write_data_u16(writer, len as u16);
    } else {
        write_data_u8(writer, BIN32);
        write_data_u32(writer, len as u32);
    }
    assert(writer@ =~= old(writer)@ + bin_header(v@.len()));
    write_all(writer, v);
    Ok(())
}

pub fn pack_array_header(writer: &mut Vec<u8>, len: usize) -> (r: Result<(), PackError>)
    requires
        len_fits(len as nat),
    ensures
        r is Ok,
        final(writer)@ == old(writer)@ + array_header(len as nat),
{
    if len < 16 {
        write_data_u8(writer, FIX_ARRAY | (len as u8));
        assert(FIX_ARRAY | (len as u8) == FIX_ARRAY + len as u8) by (bit_vector)
            requires
                len < 16,
        ;
    } else if len < 0x1_0000 {
        write_data_u8(writer, ARRAY16);
        write_data_u16(writer, len as u16);
    } else {
        write_data_u8(writer, ARRAY32);
        write_data_u32(writer, len as u32);
    }
    assert(final(writer)@ =~= old(writer)@ + array_header(len as nat));
    Ok(())
}

/// The same as `pack_array_header`, under its shorter name.
pub fn pack_ary_header(writer: &mut Vec<u8>, len: usize) -> (r: Result<(), PackError>)
    requires
        len_fits(len as nat),
    ensures
        r is Ok,
        final(writer)@ == old(writer)@ + array_header(len as nat),
{
    pack_array_header(writer, len)
}

pub fn pack_map_header(writer: &mut Vec<u8>, len: usize) -> (r: Result<(), PackError>)
    requires
        len_fits(len as nat),
    ensures
        r is Ok,
        final(writer)@ == old(writer)@ + map_header(len as nat),
{
    if len < 16 {
        write_data_u8(writer, FIX_MAP | (len as u8));
        assert(FIX_MAP | (len as u8) == FIX_MAP + len as u8) by (bit_vector)
            requires
                len < 16,
        ;
    } else if len < 0x1_0000 {
        write_data_u8(writer, MAP16);
        write_data_u16(writer, len as u16);
    } else {
        write_data_u8(writer, MAP32);
        write_data_u32(writer, len as u32);
    }
    assert(final(writer)@ =~= old(writer)@ + map_header(len as nat));
    Ok(())
}

/// Writes the header of an extension whose `len` payload bytes the caller
/// writes next with `write_payload`. Negative types are reserved and refused.
pub fn pack_ext_header(writer: &mut Vec<u8>, ext_type: i8, len: usize) -> (r: Result<(), PackError>)
    requires
        len_fits(len as nat),
    ensures
        ext_type >= 0 ==> r is Ok && final(writer)@ == old(writer)@ + ext_header(ext_type, len as nat),
        ext_type < 0 ==> r == Err::<(), PackError>(PackError::OutOfRange(RangeError::ExtType(ext_type)))
            && final(writer)@ == old(writer)@,
{
    if ext_type < 0 {
        return Err(PackError::OutOfRange(RangeError::ExtType(ext_type)));
    }
    if len == 1 {
        write_data_u8(writer, FIXEXT1);
    } else if len == 2 {
        write_data_u8(writer, FIXEXT2);
    } else if len == 4 {
        write_data_u8(writer, FIXEXT4);
    } else if len == 8 {
        write_data_u8(writer, FIXEXT8);
    } else if len == 16 {
        write_data_u8(writer, FIXEXT16);
    } else if len < 0x100 {
        write_data_u8(writer, EXT8);
        write_data_u8(writer, len as u8);
    } else if 0x100 <= len && len < 0x1_0000 {
        write_data_u8(writer, EXT16);
        write_data_u16(writer, len as u16);
    } else {
        write_data_u8(writer, EXT32);
        write_data_u32(writer, len as u32);
    }
    assert(writer@ =~= old(writer)@ + ext_len_header(len as nat));
    write_data_i8(writer, ext_type);
    assert(final(writer)@ =~= old(writer)@ + ext_header(ext_type, len as nat));
    Ok(())
}

/// Writes payload bytes as they are; used after `pack_ext_header`.
pub fn write_payload(writer: &mut Vec<u8>, v: &[u8]) -> (r: Result<(), PackError>)
    ensures
        r is Ok,
        final(writer)@ == old(writer)@ + v@,
{
    write_all(writer, v);
    Ok(())
}

pub fn pack_timestamp32(writer: &mut Vec<u8>, sec: u32) -> (r: Result<(), PackError>)
    ensures
        r is Ok,
        final(writer)@ == old(writer)@ + enc_timestamp32(sec as nat),
{
    write_data_u8(writer, FIXEXT4);
    write_data_i8(writer, -1);
    write_data_u32(writer, sec);
    proof {
        lemma_pow256_values();
    }
    assert(final(writer)@ =~= old(writer)@ + enc_timestamp32(sec as nat));
    Ok(())
}

/// Writes a timestamp64; refuses seconds from 2^34 and nanoseconds from 2^30.
pub fn pack_timestamp64(writer: &mut Vec<u8>, sec: u64, nsec: u32) -> (r: Result<(), PackError>)
    ensures
        sec < 0x4_0000_0000 && nsec < 0x4000_0000 ==> r is Ok && final(writer)@ == old(writer)@
            + enc_timestamp64(sec as nat, nsec as nat),
        !(sec < 0x4_0000_0000 && nsec < 0x4000_0000) ==> r == Err::<(), PackError>(
            PackError::OutOfRange(RangeError::Timestamp64(sec, nsec)),
        ) && final(writer)@ == old(writer)@,
{
    if sec >= 0x4_0000_0000 || nsec >= 0x4000_0000 {
        return Err(PackError::OutOfRange(RangeError::Timestamp64(sec, nsec)));
    }
    write_data_u8(writer, FIXEXT8);
    write_data_i8(writer, -1);
    let payload: u64 = (nsec as u64) * 0x4_0000_0000 + sec;
    write_data_u64(writer, payload);
    proof {
        lemma_pow256_values();
    }
    assert(final(writer)@ =~= old(writer)@ + enc_timestamp64(sec as nat, nsec as nat));
    Ok(())
}

pub fn pack_timestamp96(writer: &mut Vec<u8>, sec: i64, nsec: u32) -> (r: Result<(), PackError>)
    ensures
        r is Ok,
        final(writer)@ == old(writer)@ + enc_timestamp96(sec as int, nsec as nat),
{
    write_data_u8(writer, EXT8);
    write_data_u8(writer, 12);
    write_data_i8(writer, -1);
    write_data_u32(writer, nsec);
    write_data_i64(writer, sec);
    proof {
        lemma_pow256_values();
    }
    assert(final(writer)@ =~= old(writer)@ + enc_timestamp96(sec as int, nsec as nat));
    Ok(())
}

/// Writes a timestamp in the narrowest of the three forms that holds it.
pub fn pack_timestamp(writer: &mut Vec<u8>, sec: i64, nsec: u32) -> (r: Result<(), PackError>)
    ensures
        r is Ok,
        final(writer)@ == old(writer)@ + enc_timestamp(sec as int, nsec as nat),
{
    if 0 <= sec && sec < 0x1_0000_0000 && nsec == 0 {
        pack_timestamp32(writer, sec as u32)
    } else if 0 <= sec && sec < 0x4_0000_0000 && nsec < 0x4000_0000 {
        pack_timestamp64(writer, sec as u64, nsec)
    } else {
        pack_timestamp96(writer, sec, nsec)
    }
}

} // verus!
