//! Fixed-width big-endian reads and writes. Writes append to a byte vector;
//! reads take from a `BufferedRead` source. Neither interprets content.
use crate::error::{eof, DataError, UnpackError};
use crate::read::{advanced, BufferedRead};
use vstd::prelude::*;

verus! {

pub open spec fn pow256(n: nat) -> nat
    decreases n,
{
    if n == 0 {
        1
    } else {
        256 * pow256((n - 1) as nat)
    }
}

/// The `n` low-order base-256 digits of `v`, most significant first.
pub open spec fn be_bytes(v: nat, n: nat) -> Seq<u8>
    decreases n,
{
    if n == 0 {
        seq![]
    } else {
        be_bytes(v / 256, (n - 1) as nat).push((v % 256) as u8)
    }
}

/// The number that big-endian bytes stand for.
pub open spec fn be_value(s: Seq<u8>) -> nat
    decreases s.len(),
{
    if s.len() == 0 {
        0
    } else {
        (be_value(s.drop_last()) * 256 + s.last()) as nat
    }
}

/// Two's complement of `v` in `n` bytes.
pub open spec fn twos(v: int, n: nat) -> nat {
    if v >= 0 {
        v as nat
    } else {
        (v + pow256(n)) as nat
    }
}

/// The signed number that `n` bytes of two's complement stand for.
pub open spec fn signed_of(u: nat, n: nat) -> int {
    if 2 * u < pow256(n) {
        u as int
    } else {
        u - pow256(n)
    }
}

pub proof fn lemma_pow256_values()
    ensures
        pow256(0) == 1,
        pow256(1) == 0x100,
        pow256(2) == 0x1_0000,
        pow256(4) == 0x1_0000_0000,
        pow256(8) == 0x1_0000_0000_0000_0000,
{
    reveal_with_fuel(pow256, 9);
}

pub proof fn lemma_be_bytes_len(v: nat, n: nat)
    ensures
        be_bytes(v, n).len() == n,
    decreases n,
{
    if n > 0 {
        lemma_be_bytes_len(v / 256, (n - 1) as nat);
    }
}

/// Reading back `n` bytes written from `v` gives `v`, when `v` fits.
pub proof fn lemma_be_roundtrip(v: nat, n: nat)
    requires
        v < pow256(n),
    ensures
        be_value(be_bytes(v, n)) == v,
        be_bytes(v, n).len() == n,
    decreases n,
{
    lemma_be_bytes_len(v, n);
    if n > 0 {
        assert(v / 256 < pow256((n - 1) as nat));
        lemma_be_roundtrip(v / 256, (n - 1) as nat);
        let s = be_bytes(v, n);
        assert(s.drop_last() =~= be_bytes(v / 256, (n - 1) as nat));
    }
}

pub proof fn lemma_be_value_bound(s: Seq<u8>)
    ensures
        be_value(s) < pow256(s.len()),
    decreases s.len(),
{
    if s.len() > 0 {
        lemma_be_value_bound(s.drop_last());
    }
}

/// The value of a prefix one byte longer.
pub proof fn lemma_be_value_step(s: Seq<u8>, i: int)
    requires
        0 <= i < s.len(),
    ensures
        be_value(s.take(i + 1)) == be_value(s.take(i)) * 256 + s[i],
{
    assert(s.take(i + 1).drop_last() =~= s.take(i));
}

/// One big-endian byte stands for itself.
pub broadcast proof fn lemma_be_prefix_one(s: Seq<u8>)
    requires
        s.len() >= 1,
    ensures
        #[trigger] be_prefix(s, 1) == s[0],
{
    let t = s.take(1);
    assert(t.drop_last() =~= Seq::<u8>::empty());
    assert(be_value(Seq::<u8>::empty()) == 0);
    assert(be_value(t) == be_value(t.drop_last()) * 256 + t.last());
}

/// Reading back two's complement bytes gives the signed value.
pub proof fn lemma_twos_roundtrip(v: int, n: nat)
    requires
        n > 0,
        -pow256(n) <= 2 * v < pow256(n),
    ensures
        twos(v, n) < pow256(n),
        signed_of(twos(v, n), n) == v,
{
}

pub fn write_data_u8(wr: &mut Vec<u8>, val: u8)
    ensures
        final(wr)@ == old(wr)@.push(val),
{
    wr.push(val);
}

/// Appends the `n` low-order bytes of `v`, most significant first.
fn push_be(wr: &mut Vec<u8>, v: u64, n: usize)
    requires
        n <= 8,
    ensures
        final(wr)@ == old(wr)@ + be_bytes(v as nat, n as nat),
    decreases n,
{
    if n > 0 {
        push_be(wr, v / 256, n - 1);
        wr.push((v % 256) as u8);
    } else {
        assert(old(wr)@ + be_bytes(v as nat, 0) =~= old(wr)@);
    }
}

pub fn write_data_u16(wr: &mut Vec<u8>, val: u16)
    ensures
        final(wr)@ == old(wr)@ + be_bytes(val as nat, 2),
{
    push_be(wr, val as u64, 2);
}

pub fn write_data_u32(wr: &mut Vec<u8>, val: u32)
    ensures
        final(wr)@ == old(wr)@ + be_bytes(val as nat, 4),
{
    push_be(wr, val as u64, 4);
}

pub fn write_data_u64(wr: &mut Vec<u8>, val: u64)
    ensures
        final(wr)@ == old(wr)@ + be_bytes(val as nat, 8),
{
    push_be(wr, val, 8);
}

pub fn write_data_i8(wr: &mut Vec<u8>, val: i8)
    ensures
        final(wr)@ == old(wr)@.push(twos(val as int, 1) as u8),
{
    proof {
        lemma_pow256_values();
    }
    let b: u8 = if val >= 0 {
        val as u8
    } else {
        (val as i16 + 256) as u8
    };
    wr.push(b);
}

pub fn write_data_i16(wr: &mut Vec<u8>, val: i16)
    ensures
        final(wr)@ == old(wr)@ + be_bytes(twos(val as int, 2), 2),
{
    proof {
        lemma_pow256_values();
    }
    let u: u64 = if val >= 0 {
        val as u64
    } else {
        (val as i64 + 0x1_0000) as u64
    };
    push_be(wr, u, 2);
}

pub fn write_data_i32(wr: &mut Vec<u8>, val: i32)
    ensures
        final(wr)@ == old(wr)@ + be_bytes(twos(val as int, 4), 4),
{
    proof {
        lemma_pow256_values();
    }
    let u: u64 = if val >= 0 {
        val as u64
    } else {
        (val as i64 + 0x1_0000_0000) as u64
    };
    push_be(wr, u, 4);
}

pub fn write_data_i64(wr: &mut Vec<u8>, val: i64)
    ensures
        final(wr)@ == old(wr)@ + be_bytes(twos(val as int, 8), 8),
{
    proof {
        lemma_pow256_values();
    }
    let u: u64 = if val >= 0 {
        val as u64
    } else {
        (val - i64::MIN) as u64 + 0x8000_0000_0000_0000
    };
    push_be(wr, u, 8);
}

/// Writes the IEEE 754 bit pattern of a single-precision float.
pub fn write_data_f32(wr: &mut Vec<u8>, bits: u32)
    ensures
        final(wr)@ == old(wr)@ + be_bytes(bits as nat, 4),
{
    write_data_u32(wr, bits);
}

/// Writes the IEEE 754 bit pattern of a double-precision float.
pub fn write_data_f64(wr: &mut Vec<u8>, bits: u64)
    ensures
        final(wr)@ == old(wr)@ + be_bytes(bits as nat, 8),
{
    write_data_u64(wr, bits);
}

pub fn write_all(wr: &mut Vec<u8>, v: &[u8])
    ensures
        final(wr)@ == old(wr)@ + v@,
{
    let mut i: usize = 0;
    while i < v.len()
        invariant
            i <= v@.len(),
            wr@ == old(wr)@ + v@.take(i as int),
        decreases v@.len() - i,
    {
        wr.push(v[i]);
        i = i + 1;
        assert(wr@ =~= old(wr)@ + v@.take(i as int));
    }
    assert(v@.take(i as int) =~= v@);
}

/// Reads `n` bytes as a big-endian number. On a short input nothing is
/// consumed.
fn read_be<'a, R: BufferedRead<'a>>(rd: &mut R, n: usize) -> (r: Result<u64, UnpackError>)
    requires
        n <= 8,
    ensures
        old(rd).remaining().len() >= n ==> r == Ok::<u64, UnpackError>(
            be_value(old(rd).remaining().take(n as int)) as u64,
        ) && advanced(old(rd).remaining(), final(rd).remaining(), n as int),
        old(rd).remaining().len() < n ==> r == Err::<u64, UnpackError>(eof()) && final(rd).remaining() == old(rd).remaining(),
{
    let buf = rd.fill_buf();
    if buf.len() < n {
        return Err(UnpackError::InvalidData(DataError::UnexpectedEof));
    }
    let mut acc: u64 = 0;
    let mut i: usize = 0;
    proof {
        lemma_pow256_values();
        assert(buf@.take(0) =~= Seq::<u8>::empty());
    }
    while i < n
        invariant
            i <= n <= 8,
            n <= buf@.len(),
            acc == be_value(buf@.take(i as int)),
            pow256(8) == 0x1_0000_0000_0000_0000,
        decreases n - i,
    {
        proof {
            lemma_be_value_step(buf@, i as int);
            lemma_be_value_bound(buf@.take(i as int + 1));
            lemma_pow_mono((i + 1) as nat, 8);
        }
        acc = acc * 256 + buf[i] as u64;
        i = i + 1;
    }
    rd.consume(n);
    Ok(acc)
}

pub proof fn lemma_pow_mono(a: nat, b: nat)
    requires
        a <= b,
    ensures
        pow256(a) <= pow256(b),
    decreases b,
{
    if a < b {
        lemma_pow_mono(a, (b - 1) as nat);
    }
}

pub fn read_data_u8<'a, R: BufferedRead<'a>>(rd: &mut R) -> (r: Result<u8, UnpackError>)
    ensures
        old(rd).remaining().len() >= 1 ==> r == Ok::<u8, UnpackError>(old(rd).remaining()[0])
            && advanced(old(rd).remaining(), final(rd).remaining(), 1),
        old(rd).remaining().len() < 1 ==> r == Err::<u8, UnpackError>(eof()) && final(rd).remaining() == old(rd).remaining(),
{
    let buf = rd.fill_buf();
    if buf.len() < 1 {
        return Err(UnpackError::InvalidData(DataError::UnexpectedEof));
    }
    let b = buf[0];
    rd.consume(1);
    Ok(b)
}


/// The big-endian number in the first `n` bytes of `s`.
pub open spec fn be_prefix(s: Seq<u8>, n: int) -> nat {
    be_value(s.take(n))
}

/// The state a fixed-width read of `n` bytes leaves: the value read on
/// success; on a short input, an error and nothing consumed.
pub open spec fn fixed_read<T>(old: Seq<u8>, new: Seq<u8>, r: Result<T, UnpackError>, n: int, v: T) -> bool {
    if old.len() >= n {
        r == Ok::<T, UnpackError>(v) && advanced(old, new, n)
    } else {
        r == Err::<T, UnpackError>(eof()) && new == old
    }
}

pub fn read_data_u16<'a, R: BufferedRead<'a>>(rd: &mut R) -> (r: Result<u16, UnpackError>)
    ensures
        fixed_read(old(rd).remaining(), final(rd).remaining(), r, 2,
            be_prefix(old(rd).remaining(), 2) as u16),
{
    proof {
        lemma_pow256_values();
        if old(rd).remaining().len() >= 2 {
            lemma_be_value_bound(old(rd).remaining().take(2));
        }
    }
    match read_be(rd, 2) {
        Ok(v) => Ok(v as u16),
        Err(e) => Err(e),
    }
}

pub fn read_data_u32<'a, R: BufferedRead<'a>>(rd: &mut R) -> (r: Result<u32, UnpackError>)
    ensures
        fixed_read(old(rd).remaining(), final(rd).remaining(), r, 4,
            be_prefix(old(rd).remaining(), 4) as u32),
{
    proof {
        lemma_pow256_values();
        if old(rd).remaining().len() >= 4 {
            lemma_be_value_bound(old(rd).remaining().take(4));
        }
    }
    match read_be(rd, 4) {
        Ok(v) => Ok(v as u32),
        Err(e) => Err(e),
    }
}

pub fn read_data_u64<'a, R: BufferedRead<'a>>(rd: &mut R) -> (r: Result<u64, UnpackError>)
    ensures
        fixed_read(old(rd).remaining(), final(rd).remaining(), r, 8,
            be_prefix(old(rd).remaining(), 8) as u64),
{
    read_be(rd, 8)
}

pub fn read_data_i8<'a, R: BufferedRead<'a>>(rd: &mut R) -> (r: Result<i8, UnpackError>)
    ensures
        fixed_read(old(rd).remaining(), final(rd).remaining(), r, 1,
            signed_of(be_prefix(old(rd).remaining(), 1), 1) as i8),
{
    proof {
        lemma_pow256_values();
        if old(rd).remaining().len() >= 1 {
            lemma_be_value_step(old(rd).remaining(), 0);
            assert(old(rd).remaining().take(0) =~= Seq::<u8>::empty());
        }
    }
    match read_data_u8(rd) {
        Ok(b) => {
            if b < 0x80 {
                Ok(b as i8)
            } else {
                Ok((b as i16 - 256) as i8)
            }
        },
        Err(e) => Err(e),
    }
}

pub fn read_data_i16<'a, R: BufferedRead<'a>>(rd: &mut R) -> (r: Result<i16, UnpackError>)
    ensures
        fixed_read(old(rd).remaining(), final(rd).remaining(), r, 2,
            signed_of(be_prefix(old(rd).remaining(), 2), 2) as i16),
{
    proof {
        lemma_pow256_values();
        if old(rd).remaining().len() >= 2 {
            lemma_be_value_bound(old(rd).remaining().take(2));
        }
    }
    match read_be(rd, 2) {
        Ok(u) => {
            if u < 0x8000 {
                Ok(u as i16)
            } else {
                Ok((u as i32 - 0x1_0000) as i16)
            }
        },
        Err(e) => Err(e),
    }
}

pub fn read_data_i32<'a, R: BufferedRead<'a>>(rd: &mut R) -> (r: Result<i32, UnpackError>)
    ensures
        fixed_read(old(rd).remaining(), final(rd).remaining(), r, 4,
            signed_of(be_prefix(old(rd).remaining(), 4), 4) as i32),
{
    proof {
        lemma_pow256_values();
        if old(rd).remaining().len() >= 4 {
            lemma_be_value_bound(old(rd).remaining().take(4));
        }
    }
    match read_be(rd, 4) {
        Ok(u) => {
            if u < 0x8000_0000 {
                Ok(u as i32)
            } else {
                Ok((u as i64 - 0x1_0000_0000) as i32)
            }
        },
        Err(e) => Err(e),
    }
}

pub fn read_data_i64<'a, R: BufferedRead<'a>>(rd: &mut R) -> (r: Result<i64, UnpackError>)
    ensures
        fixed_read(old(rd).remaining(), final(rd).remaining(), r, 8,
            signed_of(be_prefix(old(rd).remaining(), 8), 8) as i64),
{
    proof {
        lemma_pow256_values();
        if old(rd).remaining().len() >= 8 {
            lemma_be_value_bound(old(rd).remaining().take(8));
        }
    }
    match read_be(rd, 8) {
        Ok(u) => {
            if u < 0x8000_0000_0000_0000 {
                Ok(u as i64)
            } else {
                Ok(((u - 0x8000_0000_0000_0000) as i64) + i64::MIN)
            }
        },
        Err(e) => Err(e),
    }
}

/// Reads the bit pattern of a single-precision float.
pub fn read_data_f32<'a, R: BufferedRead<'a>>(rd: &mut R) -> (r: Result<u32, UnpackError>)
    ensures
        fixed_read(old(rd).remaining(), final(rd).remaining(), r, 4,
            be_prefix(old(rd).remaining(), 4) as u32),
{
    read_data_u32(rd)
}

/// Reads the bit pattern of a double-precision float.
pub fn read_data_f64<'a, R: BufferedRead<'a>>(rd: &mut R) -> (r: Result<u64, UnpackError>)
    ensures
        fixed_read(old(rd).remaining(), final(rd).remaining(), r, 8,
            be_prefix(old(rd).remaining(), 8) as u64),
{
    read_data_u64(rd)
}

/// Fills `buf` from the source; on a short input nothing is consumed.
pub fn read_data<'a, R: BufferedRead<'a>>(rd: &mut R, buf: &mut [u8]) -> (r: Result<(), UnpackError>)
    ensures
        final(buf)@.len() == old(buf)@.len(),
        fixed_read(old(rd).remaining(), final(rd).remaining(), r, old(buf)@.len() as int, ()),
        r is Ok ==> final(buf)@ == old(rd).remaining().take(old(buf)@.len() as int),
{
    let src = rd.fill_buf();
    let n = buf.len();
    if src.len() < n {
        return Err(UnpackError::InvalidData(DataError::UnexpectedEof));
    }
    let mut i: usize = 0;
    while i < n
        invariant
            n == buf@.len() == old(buf)@.len(),
            n <= src@.len(),
            i <= n,
            forall|j: int| 0 <= j < i ==> buf@[j] == src@[j],
        decreases n - i,
    {
        buf[i] = src[i];
        i = i + 1;
    }
    assert(buf@ =~= src@.take(n as int));
    rd.consume(n);
    Ok(())
}

} // verus!
