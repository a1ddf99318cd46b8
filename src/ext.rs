//! Raw extensions and timestamps as the data-model bridge carries them: an
//! extension is its code (with the length for ext 8/16/32), its type and its
//! payload; a timestamp travels as the extension of type -1.
use crate::code::{EXT16, EXT32, EXT8, FIXEXT1, FIXEXT16, FIXEXT2, FIXEXT4, FIXEXT8};
use crate::de::DeError;
use crate::error::{DataError, UnpackError};
use crate::pack::{enc_timestamp, enc_timestamp32, enc_timestamp64, enc_timestamp96};
use crate::primitive::{
    be_bytes, lemma_pow256_values, read_data_i64, read_data_u32, read_data_u64, twos, write_all,
    write_data_i64, write_data_i8, write_data_u16, write_data_u32, write_data_u64, write_data_u8,
};
use crate::unpack_ext::split_timestamp64;
use crate::unpack_value::ext_model;
use crate::value::ValueModel;
use bytes::Bytes;
use vstd::prelude::*;

verus! {

#[verifier::external_type_specification]
#[verifier::external_body]
pub struct ExBytes(Bytes);

/// The bytes a `Bytes` holds.
pub uninterp spec fn bytes_contents(b: Bytes) -> Seq<u8>;

/// Relies on `Bytes::copy_from_slice`: a copy of the slice.
#[verifier::external_body]
fn bytes_copy(data: &[u8]) -> (r: Bytes)
    ensures
        bytes_contents(r) == data@,
{
    Bytes::copy_from_slice(data)
}

/// Relies on `Bytes`'s `Deref<Target = [u8]>`: the bytes it holds.
#[verifier::external_body]
fn bytes_slice(b: &Bytes) -> (r: &[u8])
    ensures
        r@ == bytes_contents(*b),
{
    b.as_ref()
}

/// A point in time: seconds and nanoseconds since the epoch.
#[derive(Debug, Clone, Copy, PartialEq, Eq, Structural)]
pub struct Timestamp(pub i64, pub u32);

impl Timestamp {
    pub fn new(sec: i64, nsec: u32) -> (r: Self)
        ensures
            r == Timestamp(sec, nsec),
    {
        Timestamp(sec, nsec)
    }
}

/// The code of an extension, with its length field for ext 8/16/32.
#[derive(Debug, Clone, Copy, PartialEq, Eq, Structural)]
pub enum ExtType {
    FixExt1,
    FixExt2,
    FixExt4,
    FixExt8,
    FixExt16,
    Ext8(u8),
    Ext16(u16),
    Ext32(u32),
}

pub open spec fn ext_type_code(t: ExtType) -> u8 {
    match t {
        ExtType::FixExt1 => FIXEXT1,
        ExtType::FixExt2 => FIXEXT2,
        ExtType::FixExt4 => FIXEXT4,
        ExtType::FixExt8 => FIXEXT8,
        ExtType::FixExt16 => FIXEXT16,
        ExtType::Ext8(_) => EXT8,
        ExtType::Ext16(_) => EXT16,
        ExtType::Ext32(_) => EXT32,
    }
}

/// The code and length bytes of an extension type.
pub open spec fn ext_type_bytes(t: ExtType) -> Seq<u8> {
    match t {
        ExtType::Ext8(n) => seq![EXT8, n],
        ExtType::Ext16(n) => seq![EXT16] + be_bytes(n as nat, 2),
        ExtType::Ext32(n) => seq![EXT32] + be_bytes(n as nat, 4),
        _ => seq![ext_type_code(t)],
    }
}

impl ExtType {
    /// The code byte.
    pub fn code(&self) -> (r: u8)
        ensures
            r == ext_type_code(*self),
    {
        match self {
            ExtType::FixExt1 => FIXEXT1,
            ExtType::FixExt2 => FIXEXT2,
            ExtType::FixExt4 => FIXEXT4,
            ExtType::FixExt8 => FIXEXT8,
            ExtType::FixExt16 => FIXEXT16,
            ExtType::Ext8(_) => EXT8,
            ExtType::Ext16(_) => EXT16,
            ExtType::Ext32(_) => EXT32,
        }
    }

    /// The extension type a code byte stands for, taking the length for ext
    /// 8/16/32; any other code is not an extension.
    pub fn from_code(h: u8, len: u32) -> (r: Option<ExtType>)
        ensures
            r matches Some(t) ==> ext_type_code(t) == h,
            r is Some <==> (h == FIXEXT1 || h == FIXEXT2 || h == FIXEXT4 || h == FIXEXT8 || h
                == FIXEXT16 || (h == EXT8 && len < 0x100) || (h == EXT16 && len < 0x1_0000) || h
                == EXT32),
            r == Some(ExtType::Ext8(len as u8)) <== h == EXT8 && len < 0x100,
            r == Some(ExtType::Ext16(len as u16)) <== h == EXT16 && len < 0x1_0000,
            r == Some(ExtType::Ext32(len)) <== h == EXT32,
    {
        if h == FIXEXT1 {
            Some(ExtType::FixExt1)
        } else if h == FIXEXT2 {
            Some(ExtType::FixExt2)
        } else if h == FIXEXT4 {
            Some(ExtType::FixExt4)
        } else if h == FIXEXT8 {
            Some(ExtType::FixExt8)
        } else if h == FIXEXT16 {
            Some(ExtType::FixExt16)
        } else if h == EXT8 && len < 0x100 {
            Some(ExtType::Ext8(len as u8))
        } else if h == EXT16 && len < 0x1_0000 {
            Some(ExtType::Ext16(len as u16))
        } else if h == EXT32 {
            Some(ExtType::Ext32(len))
        } else {
            None
        }
    }
}

/// A raw extension: its code and length, its type, and its payload.
#[derive(Debug)]
pub struct Ext {
    ext_type: ExtType,
    typ: i8,
    data: Bytes,
}

impl Ext {
    pub closed spec fn kind(&self) -> ExtType {
        self.ext_type
    }

    pub closed spec fn tag(&self) -> i8 {
        self.typ
    }

    pub closed spec fn payload(&self) -> Seq<u8> {
        bytes_contents(self.data)
    }

    /// The bytes of the extension on the wire.
    pub open spec fn wire(&self) -> Seq<u8> {
        ext_type_bytes(self.kind()) + seq![twos(self.tag() as int, 1) as u8] + self.payload()
    }

    fn with(ext_type: ExtType, typ: i8, data: &[u8]) -> (r: Self)
        ensures
            r.kind() == ext_type,
            r.tag() == typ,
            r.payload() == data@,
    {
        Ext { ext_type, typ, data: bytes_copy(data) }
    }

    pub fn fixext1(typ: i8, data: &[u8]) -> (r: Self)
        ensures
            r.kind() == ExtType::FixExt1 && r.tag() == typ && r.payload() == data@,
    {
        Ext::with(ExtType::FixExt1, typ, data)
    }

    pub fn fixext2(typ: i8, data: &[u8]) -> (r: Self)
        ensures
            r.kind() == ExtType::FixExt2 && r.tag() == typ && r.payload() == data@,
    {
        Ext::with(ExtType::FixExt2, typ, data)
    }

    pub fn fixext4(typ: i8, data: &[u8]) -> (r: Self)
        ensures
            r.kind() == ExtType::FixExt4 && r.tag() == typ && r.payload() == data@,
    {
        Ext::with(ExtType::FixExt4, typ, data)
    }

    pub fn fixext8(typ: i8, data: &[u8]) -> (r: Self)
        ensures
            r.kind() == ExtType::FixExt8 && r.tag() == typ && r.payload() == data@,
    {
        Ext::with(ExtType::FixExt8, typ, data)
    }

    pub fn fixext16(typ: i8, data: &[u8]) -> (r: Self)
        ensures
            r.kind() == ExtType::FixExt16 && r.tag() == typ && r.payload() == data@,
    {
        Ext::with(ExtType::FixExt16, typ, data)
    }

    pub fn ext8(len: u8, typ: i8, data: &[u8]) -> (r: Self)
        ensures
            r.kind() == ExtType::Ext8(len) && r.tag() == typ && r.payload() == data@,
    {
        Ext::with(ExtType::Ext8(len), typ, data)
    }

    pub fn ext16(len: u16, typ: i8, data: &[u8]) -> (r: Self)
        ensures
            r.kind() == ExtType::Ext16(len) && r.tag() == typ && r.payload() == data@,
    {
        Ext::with(ExtType::Ext16(len), typ, data)
    }

    pub fn ext32(len: u32, typ: i8, data: &[u8]) -> (r: Self)
        ensures
            r.kind() == ExtType::Ext32(len) && r.tag() == typ && r.payload() == data@,
    {
        Ext::with(ExtType::Ext32(len), typ, data)
    }

    pub fn ext_type(&self) -> (r: ExtType)
        ensures
            r == self.kind(),
    {
        self.ext_type
    }

    pub fn typ(&self) -> (r: i8)
        ensures
            r == self.tag(),
    {
        self.typ
    }

    pub fn data(&self) -> (r: &[u8])
        ensures
            r@ == self.payload(),
    {
        bytes_slice(&self.data)
    }

    /// Writes the extension's fields one after another: the code, the
    /// length for ext 8/16/32, the type, the payload.
    pub fn pack(&self, wr: &mut Vec<u8>)
        ensures
            final(wr)@ == old(wr)@ + self.wire(),
    {
        write_data_u8(wr, self.ext_type.code());
        match self.ext_type {
            ExtType::Ext8(n) => write_data_u8(wr, n),
            ExtType::Ext16(n) => write_data_u16(wr, n),
            ExtType::Ext32(n) => write_data_u32(wr, n),
            _ => {},
        }
        assert(wr@ =~= old(wr)@ + ext_type_bytes(self.kind()));
        write_data_i8(wr, self.typ);
        write_all(wr, bytes_slice(&self.data));
        assert(wr@ =~= old(wr)@ + self.wire());
    }

    /// The extension that carries a timestamp, in the narrowest of its three
    /// forms.
    pub fn from_timestamp(v: &Timestamp) -> (r: Ext)
        ensures
            r.wire() == enc_timestamp(v.0 as int, v.1 as nat),
    {
        let sec = v.0;
        let nsec = v.1;
        let mut buf: Vec<u8> = Vec::new();
        proof {
            lemma_pow256_values();
        }
        if 0 <= sec && sec < 0x1_0000_0000 && nsec == 0 {
            write_data_u32(&mut buf, sec as u32);
            let r = Ext::fixext4(-1, buf.as_slice());
            assert(r.wire() =~= enc_timestamp32(sec as nat));
            r
        } else if 0 <= sec && sec < 0x4_0000_0000 && nsec < 0x4000_0000 {
            write_data_u64(&mut buf, (nsec as u64) * 0x4_0000_0000 + sec as u64);
            let r = Ext::fixext8(-1, buf.as_slice());
            assert(r.wire() =~= enc_timestamp64(sec as nat, nsec as nat));
            r
        } else {
            write_data_u32(&mut buf, nsec);
            write_data_i64(&mut buf, sec);
            let r = Ext::ext8(12, -1, buf.as_slice());
            assert(r.wire() =~= enc_timestamp96(sec as int, nsec as nat));
            r
        }
    }
}

pub open spec fn bad_ts() -> DeError {
    DeError::UnpackError(UnpackError::InvalidData(DataError::InvalidTimestamp))
}

impl Timestamp {
    /// The timestamp an extension carries: type -1 with a 4-, 8- or (ext 8)
    /// 12-byte payload, read as a value decoder reads it. Anything else is
    /// not a timestamp.
    pub fn from_ext(e: &Ext) -> (r: Result<Timestamp, DeError>)
        ensures
            ext_model(ext_type_code(e.kind()), e.tag(), e.payload()) matches ValueModel::Timestamp(s, n)
                ==> r == Ok::<Timestamp, DeError>(Timestamp(s, n)),
            !(ext_model(ext_type_code(e.kind()), e.tag(), e.payload()) is Timestamp) ==> r is Err,
    {
        let data = bytes_slice(&e.data);
        let c = e.ext_type.code();
        if e.typ != -1 {
            return Err(DeError::UnpackError(UnpackError::InvalidData(DataError::InvalidTimestamp)));
        }
        let mut rd: &[u8] = data;
        proof {
            lemma_pow256_values();
            crate::primitive::lemma_be_value_bound(data@);
            assert(data@.take(data@.len() as int) =~= data@);
        }
        if c == FIXEXT4 && data.len() == 4 {
            match read_data_u32(&mut rd) {
                Ok(sec) => Ok(Timestamp(sec as i64, 0)),
                Err(_) => Err(DeError::UnpackError(UnpackError::InvalidData(DataError::InvalidTimestamp))),
            }
        } else if c == FIXEXT8 && data.len() == 8 {
            match read_data_u64(&mut rd) {
                Ok(raw) => {
                    let (sec, nsec) = split_timestamp64(raw);
                    Ok(Timestamp(sec as i64, nsec))
                },
                Err(_) => Err(DeError::UnpackError(UnpackError::InvalidData(DataError::InvalidTimestamp))),
            }
        } else if c == EXT8 && data.len() == 12 {
            proof {
                assert(data@.skip(4).take(8) =~= data@.skip(4));
                crate::primitive::lemma_be_value_bound(data@.take(4));
            }
            let nsec = read_data_u32(&mut rd);
            let sec = read_data_i64(&mut rd);
            match (sec, nsec) {
                (Ok(sec), Ok(nsec)) => Ok(Timestamp(sec, nsec)),
                _ => Err(DeError::UnpackError(UnpackError::InvalidData(DataError::InvalidTimestamp))),
            }
        } else {
            Err(DeError::UnpackError(UnpackError::InvalidData(DataError::InvalidTimestamp)))
        }
    }
}

} // verus!
