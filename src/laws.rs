//! Laws that relate packing and unpacking: what one writes, the other reads
//! back, whatever bytes follow.
use crate::code::{
    ARRAY16, ARRAY32, BIN16, BIN32, BIN8, EXT16, EXT32, EXT8, FALSE, FIXEXT4, FIXEXT8, FLOAT32,
    FLOAT64, INT16, INT32, INT64, INT8, MAP16, MAP32, NIL, STR16, STR32, STR8, TRUE, UINT16,
    UINT32, UINT64, UINT8,
};
use crate::pack::{
    array_header, bin_header, enc_i16, enc_i32, enc_i64, enc_i8, enc_int, enc_timestamp, enc_u16,
    enc_u32, enc_u64, enc_u8, enc_uint, ext_header, ext_len_header, len_fits, map_header,
    str_header,
};
use crate::pack_value::{
    all_nodes, all_nodes_pairs, all_nodes_seq, enc_pairs, enc_value, enc_values, fits, fits_pred,
    pair_ok, size, size_pairs, size_seq, tag_ok_pred, tags_ok,
};
use crate::primitive::{
    be_bytes, be_value, lemma_be_prefix_one, lemma_be_roundtrip, lemma_pow256_values,
    lemma_twos_roundtrip, signed_of, twos,
};
use crate::unpack::{
    after_code, spec_unpack_f32, spec_unpack_f64, spec_unpack_i16, spec_unpack_i32,
    spec_unpack_i64, spec_unpack_i8, spec_unpack_u16, spec_unpack_u32, spec_unpack_u64,
    spec_unpack_u8, tag_at,
};
use crate::unpack_ext::{ts64_nsec, ts64_sec};
use crate::unpack_value::{
    int_model, parse_pairs, parse_value, parse_values, wrap_array, wrap_pairs,
};
use crate::value::{FloatNumber, Number, ValueModel};
use vstd::prelude::*;

verus! {

/// The length field after a code is the number its bytes stand for.
pub proof fn lemma_after_code_of(code: u8, payload: Seq<u8>, rest: Seq<u8>)
    requires
        1 <= payload.len() <= 8,
    ensures
        after_code(seq![code] + payload + rest, payload.len() as int) == be_value(payload),
{
    let s = seq![code] + payload + rest;
    assert(s.skip(1).take(payload.len() as int) =~= payload);
}

/// A uint 8 reads back as the same number.
pub proof fn lemma_u8_round_trip(x: u8, rest: Seq<u8>)
    ensures
        spec_unpack_u8(enc_u8(x as nat) + rest) == (Ok::<u8, crate::error::UnpackError>(x), 2int),
{
    let s = enc_u8(x as nat) + rest;
    assert(s[0] == UINT8 && s[1] == x);
}

/// A uint 16 reads back as the same number.
pub proof fn lemma_u16_round_trip(x: u16, rest: Seq<u8>)
    ensures
        spec_unpack_u16(enc_u16(x as nat) + rest) == (Ok::<u16, crate::error::UnpackError>(x), 3int),
{
    lemma_pow256_values();
    lemma_be_roundtrip(x as nat, 2);
    lemma_after_code_of(UINT16, be_bytes(x as nat, 2), rest);
    assert(enc_u16(x as nat) + rest =~= seq![UINT16] + be_bytes(x as nat, 2) + rest);
}

/// A uint 32 reads back as the same number.
pub proof fn lemma_u32_round_trip(x: u32, rest: Seq<u8>)
    ensures
        spec_unpack_u32(enc_u32(x as nat) + rest) == (Ok::<u32, crate::error::UnpackError>(x), 5int),
{
    lemma_pow256_values();
    lemma_be_roundtrip(x as nat, 4);
    lemma_after_code_of(UINT32, be_bytes(x as nat, 4), rest);
    assert(enc_u32(x as nat) + rest =~= seq![UINT32] + be_bytes(x as nat, 4) + rest);
}

/// A uint 64 reads back as the same number.
pub proof fn lemma_u64_round_trip(x: u64, rest: Seq<u8>)
    ensures
        spec_unpack_u64(enc_u64(x as nat) + rest) == (Ok::<u64, crate::error::UnpackError>(x), 9int),
{
    lemma_pow256_values();
    lemma_be_roundtrip(x as nat, 8);
    lemma_after_code_of(UINT64, be_bytes(x as nat, 8), rest);
    assert(enc_u64(x as nat) + rest =~= seq![UINT64] + be_bytes(x as nat, 8) + rest);
}

/// An int 8 reads back as the same number.
pub proof fn lemma_i8_round_trip(x: i8, rest: Seq<u8>)
    ensures
        spec_unpack_i8(enc_i8(x as int) + rest) == (Ok::<i8, crate::error::UnpackError>(x), 2int),
{
    lemma_pow256_values();
    lemma_twos_roundtrip(x as int, 1);
    let p = seq![twos(x as int, 1) as u8];
    lemma_be_roundtrip(twos(x as int, 1), 1);
    assert(be_bytes(twos(x as int, 1), 1) =~= p) by {
        reveal_with_fuel(be_bytes, 2);
    }
    lemma_after_code_of(INT8, p, rest);
    assert(enc_i8(x as int) + rest =~= seq![INT8] + p + rest);
}

/// An int 16 reads back as the same number.
pub proof fn lemma_i16_round_trip(x: i16, rest: Seq<u8>)
    ensures
        spec_unpack_i16(enc_i16(x as int) + rest) == (Ok::<i16, crate::error::UnpackError>(x), 3int),
{
    lemma_pow256_values();
    lemma_twos_roundtrip(x as int, 2);
    lemma_be_roundtrip(twos(x as int, 2), 2);
    lemma_after_code_of(INT16, be_bytes(twos(x as int, 2), 2), rest);
    assert(enc_i16(x as int) + rest =~= seq![INT16] + be_bytes(twos(x as int, 2), 2) + rest);
}

/// An int 32 reads back as the same number.
pub proof fn lemma_i32_round_trip(x: i32, rest: Seq<u8>)
    ensures
        spec_unpack_i32(enc_i32(x as int) + rest) == (Ok::<i32, crate::error::UnpackError>(x), 5int),
{
    lemma_pow256_values();
    lemma_twos_roundtrip(x as int, 4);
    lemma_be_roundtrip(twos(x as int, 4), 4);
    lemma_after_code_of(INT32, be_bytes(twos(x as int, 4), 4), rest);
    assert(enc_i32(x as int) + rest =~= seq![INT32] + be_bytes(twos(x as int, 4), 4) + rest);
}

/// An int 64 reads back as the same number.
pub proof fn lemma_i64_round_trip(x: i64, rest: Seq<u8>)
    ensures
        spec_unpack_i64(enc_i64(x as int) + rest) == (Ok::<i64, crate::error::UnpackError>(x), 9int),
{
    lemma_pow256_values();
    lemma_twos_roundtrip(x as int, 8);
    lemma_be_roundtrip(twos(x as int, 8), 8);
    lemma_after_code_of(INT64, be_bytes(twos(x as int, 8), 8), rest);
    assert(enc_i64(x as int) + rest =~= seq![INT64] + be_bytes(twos(x as int, 8), 8) + rest);
}

/// A float 32 reads back as the same bit pattern.
pub proof fn lemma_f32_round_trip(bits: u32, rest: Seq<u8>)
    ensures
        spec_unpack_f32((seq![FLOAT32] + be_bytes(bits as nat, 4)) + rest) == (Ok::<
            u32,
            crate::error::UnpackError,
        >(bits), 5int),
{
    lemma_pow256_values();
    lemma_be_roundtrip(bits as nat, 4);
    lemma_after_code_of(FLOAT32, be_bytes(bits as nat, 4), rest);
}

/// A float 64 reads back as the same bit pattern.
pub proof fn lemma_f64_round_trip(bits: u64, rest: Seq<u8>)
    ensures
        spec_unpack_f64((seq![FLOAT64] + be_bytes(bits as nat, 8)) + rest) == (Ok::<
            u64,
            crate::error::UnpackError,
        >(bits), 9int),
{
    lemma_pow256_values();
    lemma_be_roundtrip(bits as nat, 8);
    lemma_after_code_of(FLOAT64, be_bytes(bits as nat, 8), rest);
}

/// A header followed by a body: past the header, the body and what follows.
proof fn lemma_skip_header(h: Seq<u8>, body: Seq<u8>, rest: Seq<u8>)
    ensures
        (h + body + rest).skip(h.len() as int) == body + rest,
        (h + body + rest).len() == h.len() + body.len() + rest.len(),
{
    assert((h + body + rest).skip(h.len() as int) =~= body + rest);
}

/// The narrowest encoding of a non-negative number decodes to that number.
pub proof fn lemma_uint_round_trip(v: nat, rest: Seq<u8>)
    requires
        v < 0x1_0000_0000_0000_0000,
    ensures
        parse_value(enc_uint(v) + rest) == Some((int_model(v as int), enc_uint(v).len() as int)),
{
    lemma_pow256_values();
    let s = enc_uint(v) + rest;
    if v < 0x80 {
        assert(s[0] == v);
    } else if v < 0x100 {
        assert(s[0] == UINT8);
        lemma_be_roundtrip(v, 1);
        assert(be_bytes(v, 1) =~= seq![v as u8]) by {
            reveal_with_fuel(be_bytes, 2);
        }
        lemma_after_code_of(UINT8, be_bytes(v, 1), rest);
        assert(s =~= seq![UINT8] + be_bytes(v, 1) + rest);
    } else if v < 0x1_0000 {
        lemma_be_roundtrip(v, 2);
        lemma_after_code_of(UINT16, be_bytes(v, 2), rest);
        assert(s =~= seq![UINT16] + be_bytes(v, 2) + rest);
    } else if v < 0x1_0000_0000 {
        lemma_be_roundtrip(v, 4);
        lemma_after_code_of(UINT32, be_bytes(v, 4), rest);
        assert(s =~= seq![UINT32] + be_bytes(v, 4) + rest);
    } else {
        lemma_be_roundtrip(v, 8);
        lemma_after_code_of(UINT64, be_bytes(v, 8), rest);
        assert(s =~= seq![UINT64] + be_bytes(v, 8) + rest);
    }
}

/// The narrowest encoding of a negative number decodes to that number.
pub proof fn lemma_negint_round_trip(v: int, rest: Seq<u8>)
    requires
        -0x8000_0000_0000_0000 <= v < 0,
    ensures
        parse_value(enc_int(v) + rest) == Some((int_model(v), enc_int(v).len() as int)),
{
    lemma_pow256_values();
    let s = enc_int(v) + rest;
    if v >= -32 {
        assert(s[0] == v + 256);
    } else if v >= -0x80 {
        lemma_twos_roundtrip(v, 1);
        lemma_be_roundtrip(twos(v, 1), 1);
        assert(be_bytes(twos(v, 1), 1) =~= seq![twos(v, 1) as u8]) by {
            reveal_with_fuel(be_bytes, 2);
        }
        lemma_after_code_of(INT8, be_bytes(twos(v, 1), 1), rest);
        assert(s =~= seq![INT8] + be_bytes(twos(v, 1), 1) + rest);
    } else if v >= -0x8000 {
        lemma_twos_roundtrip(v, 2);
        lemma_be_roundtrip(twos(v, 2), 2);
        lemma_after_code_of(INT16, be_bytes(twos(v, 2), 2), rest);
        assert(s =~= seq![INT16] + be_bytes(twos(v, 2), 2) + rest);
    } else if v >= -0x8000_0000 {
        lemma_twos_roundtrip(v, 4);
        lemma_be_roundtrip(twos(v, 4), 4);
        lemma_after_code_of(INT32, be_bytes(twos(v, 4), 4), rest);
        assert(s =~= seq![INT32] + be_bytes(twos(v, 4), 4) + rest);
    } else {
        lemma_twos_roundtrip(v, 8);
        lemma_be_roundtrip(twos(v, 8), 8);
        lemma_after_code_of(INT64, be_bytes(twos(v, 8), 8), rest);
        assert(s =~= seq![INT64] + be_bytes(twos(v, 8), 8) + rest);
    }
}

/// Packing an integer with the narrowest code and unpacking it as a value
/// gives the integer in canonical form, and packing that value again gives
/// the same bytes.
pub proof fn lemma_fit_int_round_trip(v: int, rest: Seq<u8>)
    requires
        -0x8000_0000_0000_0000 <= v < 0x1_0000_0000_0000_0000,
    ensures
        parse_value(enc_int(v) + rest) == Some((int_model(v), enc_int(v).len() as int)),
        enc_value(int_model(v)) == enc_int(v),
{
    if v >= 0 {
        lemma_uint_round_trip(v as nat, rest);
    } else {
        lemma_negint_round_trip(v, rest);
    }
}

/// A string's bytes decode back as the same bytes.
pub proof fn lemma_str_round_trip(b: Seq<u8>, rest: Seq<u8>)
    requires
        len_fits(b.len()),
    ensures
        parse_value(str_header(b.len()) + b + rest) == Some((ValueModel::String(b), (str_header(b.len()) + b).len() as int)),
{
    lemma_pow256_values();
    let n = b.len();
    let h = str_header(n);
    let s = h + b + rest;
    lemma_skip_header(h, b, rest);
    assert(s.subrange(h.len() as int, (h.len() + n) as int) =~= b);
    if n < 32 {
        assert(s[0] == 0xa0 + n);
    } else if n < 0x100 {
        lemma_be_roundtrip(n, 1);
        assert(be_bytes(n, 1) =~= seq![n as u8]) by {
            reveal_with_fuel(be_bytes, 2);
        }
        lemma_after_code_of(STR8, be_bytes(n, 1), b + rest);
        assert(s =~= seq![STR8] + be_bytes(n, 1) + (b + rest));
    } else if n < 0x1_0000 {
        lemma_be_roundtrip(n, 2);
        lemma_after_code_of(STR16, be_bytes(n, 2), b + rest);
        assert(s =~= seq![STR16] + be_bytes(n, 2) + (b + rest));
    } else {
        lemma_be_roundtrip(n, 4);
        lemma_after_code_of(STR32, be_bytes(n, 4), b + rest);
        assert(s =~= seq![STR32] + be_bytes(n, 4) + (b + rest));
    }
}

/// A binary's bytes decode back as the same bytes.
pub proof fn lemma_bin_round_trip(b: Seq<u8>, rest: Seq<u8>)
    requires
        len_fits(b.len()),
    ensures
        parse_value(bin_header(b.len()) + b + rest) == Some((ValueModel::Binary(b), (bin_header(b.len()) + b).len() as int)),
{
    lemma_pow256_values();
    let n = b.len();
    let h = bin_header(n);
    let s = h + b + rest;
    lemma_skip_header(h, b, rest);
    assert(s.subrange(h.len() as int, (h.len() + n) as int) =~= b);
    if n < 0x100 {
        lemma_be_roundtrip(n, 1);
        assert(be_bytes(n, 1) =~= seq![n as u8]) by {
            reveal_with_fuel(be_bytes, 2);
        }
        lemma_after_code_of(BIN8, be_bytes(n, 1), b + rest);
        assert(s =~= seq![BIN8] + be_bytes(n, 1) + (b + rest));
    } else if n < 0x1_0000 {
        lemma_be_roundtrip(n, 2);
        lemma_after_code_of(BIN16, be_bytes(n, 2), b + rest);
        assert(s =~= seq![BIN16] + be_bytes(n, 2) + (b + rest));
    } else {
        lemma_be_roundtrip(n, 4);
        lemma_after_code_of(BIN32, be_bytes(n, 4), b + rest);
        assert(s =~= seq![BIN32] + be_bytes(n, 4) + (b + rest));
    }
}

/// The facts every extension form shares: past a header of `k` bytes come
/// the type byte and the payload.
proof fn lemma_ext_tail(s: Seq<u8>, lh: Seq<u8>, t: i8, d: Seq<u8>, rest: Seq<u8>)
    requires
        t >= 0,
        s == lh + (seq![twos(t as int, 1) as u8] + d + rest),
    ensures
        tag_at(s, lh.len() as int) == t,
        s.subrange(lh.len() + 1int, lh.len() + 1int + d.len()) == d,
        s.len() >= lh.len() + 1 + d.len(),
{
    lemma_pow256_values();
    let tb = twos(t as int, 1) as u8;
    let k = lh.len() as int;
    assert(s.skip(k) =~= seq![tb] + d + rest);
    assert(s.skip(k)[0] == tb);
    lemma_be_prefix_one(s.skip(k));
    assert(s.subrange(k + 1, k + 1 + d.len()) =~= d);
}

#[verifier::rlimit(40)]
proof fn lemma_ext_fix_round_trip(t: i8, d: Seq<u8>, rest: Seq<u8>)
    requires
        t >= 0,
        d.len() == 1 || d.len() == 2 || d.len() == 4 || d.len() == 8 || d.len() == 16,
    ensures
        parse_value(ext_header(t, d.len()) + d + rest) == Some((ValueModel::Extension(t, d), (ext_header(t, d.len()) + d).len() as int)),
{
    let lh = ext_len_header(d.len());
    let s = ext_header(t, d.len()) + d + rest;
    assert(s =~= lh + (seq![twos(t as int, 1) as u8] + d + rest));
    lemma_ext_tail(s, lh, t, d, rest);
}

#[verifier::rlimit(40)]
proof fn lemma_ext_sized_round_trip(t: i8, d: Seq<u8>, rest: Seq<u8>, code: u8, w: nat)
    requires
        t >= 0,
        len_fits(d.len()),
        !(d.len() == 1 || d.len() == 2 || d.len() == 4 || d.len() == 8 || d.len() == 16),
        (d.len() < 0x100 && code == EXT8 && w == 1) || (0x100 <= d.len() < 0x1_0000 && code
            == EXT16 && w == 2) || (0x1_0000 <= d.len() && code == EXT32 && w == 4),
    ensures
        parse_value(ext_header(t, d.len()) + d + rest) == Some((ValueModel::Extension(t, d), (ext_header(t, d.len()) + d).len() as int)),
{
    lemma_pow256_values();
    let n = d.len();
    let lh = ext_len_header(n);
    let tail = seq![twos(t as int, 1) as u8] + d + rest;
    let s = ext_header(t, n) + d + rest;
    assert(s =~= lh + tail);
    lemma_ext_tail(s, lh, t, d, rest);
    lemma_be_roundtrip(n, w);
    if w == 1 {
        assert(be_bytes(n, 1) =~= seq![n as u8]) by {
            reveal_with_fuel(be_bytes, 2);
        }
    }
    assert(lh =~= seq![code] + be_bytes(n, w));
    lemma_after_code_of(code, be_bytes(n, w), tail);
    assert(s =~= seq![code] + be_bytes(n, w) + tail);
}

/// An extension of a non-reserved type decodes back as itself.
pub proof fn lemma_ext_round_trip(t: i8, d: Seq<u8>, rest: Seq<u8>)
    requires
        t >= 0,
        len_fits(d.len()),
    ensures
        parse_value(ext_header(t, d.len()) + d + rest) == Some((ValueModel::Extension(t, d), (ext_header(t, d.len()) + d).len() as int)),
{
    let n = d.len();
    if n == 1 || n == 2 || n == 4 || n == 8 || n == 16 {
        lemma_ext_fix_round_trip(t, d, rest);
    } else if n < 0x100 {
        lemma_ext_sized_round_trip(t, d, rest, EXT8, 1);
    } else if 0x100 <= n < 0x1_0000 {
        lemma_ext_sized_round_trip(t, d, rest, EXT16, 2);
    } else {
        lemma_ext_sized_round_trip(t, d, rest, EXT32, 4);
    }
}

/// A timestamp decodes back as itself, whichever of the three forms was
/// written.
pub proof fn lemma_timestamp_round_trip(sec: i64, nsec: u32, rest: Seq<u8>)
    ensures
        parse_value(enc_timestamp(sec as int, nsec as nat) + rest) == Some((ValueModel::Timestamp(sec, nsec), enc_timestamp(sec as int, nsec as nat).len() as int)),
{
    lemma_pow256_values();
    let s = enc_timestamp(sec as int, nsec as nat) + rest;
    assert(signed_of(0xff, 1) == -1);
    if 0 <= sec < 0x1_0000_0000 && nsec == 0 {
        let d = be_bytes(sec as nat, 4);
        lemma_be_roundtrip(sec as nat, 4);
        assert(s =~= seq![FIXEXT4, 0xff] + d + rest);
        assert(s.skip(1)[0] == 0xff);
        lemma_be_prefix_one(s.skip(1));
        assert(s.subrange(2, 6) =~= d);
    } else if 0 <= sec < 0x4_0000_0000 && nsec < 0x4000_0000 {
        let raw = nsec as nat * 0x4_0000_0000 + sec as nat;
        let d = be_bytes(raw, 8);
        lemma_be_roundtrip(raw, 8);
        assert(s =~= seq![FIXEXT8, 0xff] + d + rest);
        assert(s.skip(1)[0] == 0xff);
        lemma_be_prefix_one(s.skip(1));
        assert(s.subrange(2, 10) =~= d);
        assert(ts64_sec(raw) == sec) by (nonlinear_arith)
            requires
                raw == nsec as nat * 0x4_0000_0000 + sec as nat,
                0 <= sec < 0x4_0000_0000,
        ;
        assert(ts64_nsec(raw) == nsec) by (nonlinear_arith)
            requires
                raw == nsec as nat * 0x4_0000_0000 + sec as nat,
                0 <= sec < 0x4_0000_0000,
                nsec < 0x4000_0000,
        ;
    } else {
        let dn = be_bytes(nsec as nat, 4);
        let ds = be_bytes(twos(sec as int, 8), 8);
        lemma_be_roundtrip(nsec as nat, 4);
        lemma_twos_roundtrip(sec as int, 8);
        lemma_be_roundtrip(twos(sec as int, 8), 8);
        assert(s =~= seq![EXT8, 12, 0xff] + (dn + ds) + rest);
        lemma_be_roundtrip(12, 1);
        assert(be_bytes(12, 1) =~= seq![12u8]) by {
            reveal_with_fuel(be_bytes, 2);
        }
        lemma_after_code_of(EXT8, seq![12u8], seq![0xffu8] + (dn + ds) + rest);
        assert(s =~= seq![EXT8] + seq![12u8] + (seq![0xffu8] + (dn + ds) + rest));
        assert(s.skip(2)[0] == 0xff);
        lemma_be_prefix_one(s.skip(2));
        let d = s.subrange(3, 15);
        assert(d =~= dn + ds);
        assert(d.take(4) =~= dn);
        assert(d.skip(4) =~= ds);
    }
}

/// An array header, then its body: the elements are read from the body on.
proof fn lemma_array_header_parse(n: nat, body: Seq<u8>, rest: Seq<u8>)
    requires
        len_fits(n),
    ensures
        parse_value(array_header(n) + body + rest) == wrap_array(
            parse_values(body + rest, n),
            array_header(n).len() as int,
        ),
{
    lemma_pow256_values();
    let h = array_header(n);
    let s = h + body + rest;
    lemma_skip_header(h, body, rest);
    if n < 16 {
        assert(s[0] == 0x90 + n);
    } else if n < 0x1_0000 {
        lemma_be_roundtrip(n, 2);
        lemma_after_code_of(ARRAY16, be_bytes(n, 2), body + rest);
        assert(s =~= seq![ARRAY16] + be_bytes(n, 2) + (body + rest));
    } else {
        lemma_be_roundtrip(n, 4);
        lemma_after_code_of(ARRAY32, be_bytes(n, 4), body + rest);
        assert(s =~= seq![ARRAY32] + be_bytes(n, 4) + (body + rest));
    }
}

/// A map header, then its body: the pairs are read from the body on.
proof fn lemma_map_header_parse(n: nat, body: Seq<u8>, rest: Seq<u8>)
    requires
        len_fits(n),
    ensures
        parse_value(map_header(n) + body + rest) == wrap_pairs(
            parse_pairs(body + rest, n),
            map_header(n).len() as int,
        ),
{
    lemma_pow256_values();
    let h = map_header(n);
    let s = h + body + rest;
    lemma_skip_header(h, body, rest);
    if n < 16 {
        assert(s[0] == 0x80 + n);
    } else if n < 0x1_0000 {
        lemma_be_roundtrip(n, 2);
        lemma_after_code_of(MAP16, be_bytes(n, 2), body + rest);
        assert(s =~= seq![MAP16] + be_bytes(n, 2) + (body + rest));
    } else {
        lemma_be_roundtrip(n, 4);
        lemma_after_code_of(MAP32, be_bytes(n, 4), body + rest);
        assert(s =~= seq![MAP32] + be_bytes(n, 4) + (body + rest));
    }
}

/// An integer node holds its number in canonical form.
pub open spec fn canon_pred() -> spec_fn(ValueModel) -> bool {
    |x: ValueModel| (x matches ValueModel::Integer(i) ==> i.wf())
}

/// Every integer in the tree is in canonical form, as decoding gives it.
pub open spec fn canonical(m: ValueModel) -> bool {
    all_nodes(m, canon_pred())
}

/// The trees that encode and decode back to themselves: every length fits
/// its field, no extension type is reserved, every integer is canonical.
pub open spec fn round_trips(m: ValueModel) -> bool {
    fits(m) && tags_ok(m) && canonical(m)
}

proof fn lemma_size_positive(m: ValueModel)
    ensures
        size(m) >= 1,
{
}

/// Unpacking what `pack_value` wrote gives back the same tree and consumes
/// exactly its bytes, whatever follows them. This covers strings that hold
/// invalid UTF-8: their bytes go out and come back unchanged.
pub proof fn lemma_value_round_trip(m: ValueModel, rest: Seq<u8>)
    requires
        round_trips(m),
    ensures
        parse_value(enc_value(m) + rest) == Some((m, enc_value(m).len() as int)),
    decreases size(m), 0int,
{
    lemma_pow256_values();
    let s = enc_value(m) + rest;
    match m {
        ValueModel::Nil => {
            assert(s[0] == NIL);
        },
        ValueModel::Boolean(b) => {
            assert(s[0] == if b { TRUE } else { FALSE });
        },
        ValueModel::Integer(i) => match i.n {
            Number::PosInt(v) => {
                lemma_uint_round_trip(v as nat, rest);
            },
            Number::NegInt(v) => {
                lemma_negint_round_trip(v as int, rest);
            },
        },
        ValueModel::Float(f) => match f.n {
            FloatNumber::Float32(b) => {
                lemma_be_roundtrip(b as nat, 4);
                lemma_after_code_of(FLOAT32, be_bytes(b as nat, 4), rest);
            },
            FloatNumber::Float64(b) => {
                lemma_be_roundtrip(b as nat, 8);
                lemma_after_code_of(FLOAT64, be_bytes(b as nat, 8), rest);
            },
        },
        ValueModel::Binary(b) => {
            lemma_bin_round_trip(b, rest);
        },
        ValueModel::String(b) => {
            lemma_str_round_trip(b, rest);
        },
        ValueModel::Array(vs) => {
            lemma_values_round_trip(vs, rest);
            lemma_array_header_parse(vs.len(), enc_values(vs), rest);
        },
        ValueModel::Pairs(ps) => {
            lemma_pairs_round_trip(ps, rest);
            lemma_map_header_parse(ps.len(), enc_pairs(ps), rest);
        },
        ValueModel::Extension(t, d) => {
            lemma_ext_round_trip(t, d, rest);
        },
        ValueModel::Timestamp(sec, nsec) => {
            lemma_timestamp_round_trip(sec, nsec, rest);
        },
    }
}

/// The elements of an array decode back one after another.
pub proof fn lemma_values_round_trip(vs: Seq<ValueModel>, rest: Seq<u8>)
    requires
        all_nodes_seq(vs, fits_pred()),
        all_nodes_seq(vs, tag_ok_pred()),
        all_nodes_seq(vs, canon_pred()),
    ensures
        parse_values(enc_values(vs) + rest, vs.len()) == Some((vs, enc_values(vs).len() as int)),
    decreases size_seq(vs), 1int,
{
    if vs.len() == 0 {
        assert(vs =~= seq![]);
    } else {
        let ws = vs.drop_last();
        let w = vs.last();
        let tail = enc_value(w) + rest;
        lemma_size_positive(w);
        lemma_values_round_trip(ws, tail);
        lemma_value_round_trip(w, rest);
        let s = enc_values(vs) + rest;
        assert(s =~= enc_values(ws) + tail);
        assert(s.skip(enc_values(ws).len() as int) =~= tail);
        assert(ws.push(w) =~= vs);
    }
}

/// The entries of a map decode back one after another.
#[verifier::rlimit(100)]
#[verifier::spinoff_prover]
pub proof fn lemma_pairs_round_trip(ps: Seq<(ValueModel, ValueModel)>, rest: Seq<u8>)
    requires
        all_nodes_pairs(ps, fits_pred()),
        all_nodes_pairs(ps, tag_ok_pred()),
        all_nodes_pairs(ps, canon_pred()),
    ensures
        parse_pairs(enc_pairs(ps) + rest, ps.len()) == Some((ps, enc_pairs(ps).len() as int)),
    decreases size_pairs(ps), 1int,
{
    if ps.len() == 0 {
        assert(ps =~= seq![]);
    } else {
        let qs = ps.drop_last();
        let (key, val) = ps.last();
        let tail = enc_value(key) + enc_value(val) + rest;
        lemma_size_positive(key);
        lemma_size_positive(val);
        lemma_pairs_round_trip(qs, tail);
        assert(pair_ok(ps.last(), fits_pred()) && pair_ok(ps.last(), tag_ok_pred()) && pair_ok(
            ps.last(),
            canon_pred(),
        ));
        assert(round_trips(key) && round_trips(val));
        lemma_value_round_trip(key, enc_value(val) + rest);
        lemma_value_round_trip(val, rest);
        let s = enc_pairs(ps) + rest;
        let k = enc_pairs(qs).len() as int;
        let k1 = enc_value(key).len() as int;
        assert(enc_pairs(ps) == enc_pairs(qs) + enc_value(key) + enc_value(val));
        assert(s =~= enc_pairs(qs) + tail);
        assert(s.skip(k) =~= enc_value(key) + (enc_value(val) + rest));
        assert(s.skip(k + k1) =~= enc_value(val) + rest);
        lemma_parse_pairs_step(s, ps.len(), qs, k, key, k1, val, enc_value(val).len() as int);
        assert(qs.push((key, val)) =~= ps);
    }
}

/// One more pair at the end of a run of pairs.
proof fn lemma_parse_pairs_step(
    s: Seq<u8>,
    n: nat,
    ps: Seq<(ValueModel, ValueModel)>,
    k: int,
    key: ValueModel,
    k1: int,
    val: ValueModel,
    k2: int,
)
    requires
        n > 0,
        parse_pairs(s, (n - 1) as nat) == Some((ps, k)),
        0 <= k <= s.len(),
        0 <= k1,
        k + k1 <= s.len(),
        parse_value(s.skip(k)) == Some((key, k1)),
        parse_value(s.skip(k + k1)) == Some((val, k2)),
    ensures
        parse_pairs(s, n) == Some((ps.push((key, val)), k + k1 + k2)),
{
}

} // verus!
