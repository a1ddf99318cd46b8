//! The leading type byte of every encoded element, and its classification.
use vstd::prelude::*;

verus! {

pub const POS_INT: u8 = 0x00;
pub const NIL: u8 = 0xc0;
pub const RESERVED: u8 = 0xc1;
pub const FALSE: u8 = 0xc2;
pub const TRUE: u8 = 0xc3;
pub const UINT8: u8 = 0xcc;
pub const UINT16: u8 = 0xcd;
pub const UINT32: u8 = 0xce;
pub const UINT64: u8 = 0xcf;
pub const INT8: u8 = 0xd0;
pub const INT16: u8 = 0xd1;
pub const INT32: u8 = 0xd2;
pub const INT64: u8 = 0xd3;
pub const FLOAT32: u8 = 0xca;
pub const FLOAT64: u8 = 0xcb;
pub const FIX_STR: u8 = 0xa0;
pub const STR8: u8 = 0xd9;
pub const STR16: u8 = 0xda;
pub const STR32: u8 = 0xdb;
pub const BIN8: u8 = 0xc4;
pub const BIN16: u8 = 0xc5;
pub const BIN32: u8 = 0xc6;
pub const FIX_ARRAY: u8 = 0x90;
pub const ARRAY16: u8 = 0xdc;
pub const ARRAY32: u8 = 0xdd;
pub const NEG_INT: u8 = 0xe0;
pub const FIX_MAP: u8 = 0x80;
pub const MAP16: u8 = 0xde;
pub const MAP32: u8 = 0xdf;
pub const FIXEXT1: u8 = 0xd4;
pub const FIXEXT2: u8 = 0xd5;
pub const FIXEXT4: u8 = 0xd6;
pub const FIXEXT8: u8 = 0xd7;
pub const FIXEXT16: u8 = 0xd8;
pub const EXT8: u8 = 0xc7;
pub const EXT16: u8 = 0xc8;
pub const EXT32: u8 = 0xc9;

/// The classification of a leading byte. Fix-range codes carry the bits that
/// the byte holds inline: a small integer, or a length.
#[derive(Debug, Clone, Copy, PartialEq, Eq, Structural)]
pub enum Code {
    Nil,
    True,
    False,
    PosInt(u8),
    NegInt(i8),
    Uint8,
    Uint16,
    Uint32,
    Uint64,
    Int8,
    Int16,
    Int32,
    Int64,
    Float32,
    Float64,
    FixStr(u8),
    Str8,
    Str16,
    Str32,
    Bin8,
    Bin16,
    Bin32,
    FixArray(u8),
    Array16,
    Array32,
    FixMap(u8),
    Map16,
    Map32,
    FixExt1,
    FixExt2,
    FixExt4,
    FixExt8,
    FixExt16,
    Ext8,
    Ext16,
    Ext32,
    Reserved,
}

/// The code that a leading byte stands for; total over all 256 bytes.
pub open spec fn classify(b: u8) -> Code {
    if b <= 0x7f {
        Code::PosInt(b)
    } else if 0x80 <= b <= 0x8f {
        Code::FixMap((b - 0x80) as u8)
    } else if 0x90 <= b <= 0x9f {
        Code::FixArray((b - 0x90) as u8)
    } else if 0xa0 <= b <= 0xbf {
        Code::FixStr((b - 0xa0) as u8)
    } else if 0xe0 <= b {
        Code::NegInt((b - 256) as i8)
    } else if b == NIL {
        Code::Nil
    } else if b == FALSE {
        Code::False
    } else if b == TRUE {
        Code::True
    } else if b == BIN8 {
        Code::Bin8
    } else if b == BIN16 {
        Code::Bin16
    } else if b == BIN32 {
        Code::Bin32
    } else if b == EXT8 {
        Code::Ext8
    } else if b == EXT16 {
        Code::Ext16
    } else if b == EXT32 {
        Code::Ext32
    } else if b == FLOAT32 {
        Code::Float32
    } else if b == FLOAT64 {
        Code::Float64
    } else if b == UINT8 {
        Code::Uint8
    } else if b == UINT16 {
        Code::Uint16
    } else if b == UINT32 {
        Code::Uint32
    } else if b == UINT64 {
        Code::Uint64
    } else if b == INT8 {
        Code::Int8
    } else if b == INT16 {
        Code::Int16
    } else if b == INT32 {
        Code::Int32
    } else if b == INT64 {
        Code::Int64
    } else if b == FIXEXT1 {
        Code::FixExt1
    } else if b == FIXEXT2 {
        Code::FixExt2
    } else if b == FIXEXT4 {
        Code::FixExt4
    } else if b == FIXEXT8 {
        Code::FixExt8
    } else if b == FIXEXT16 {
        Code::FixExt16
    } else if b == STR8 {
        Code::Str8
    } else if b == STR16 {
        Code::Str16
    } else if b == STR32 {
        Code::Str32
    } else if b == ARRAY16 {
        Code::Array16
    } else if b == ARRAY32 {
        Code::Array32
    } else if b == MAP16 {
        Code::Map16
    } else if b == MAP32 {
        Code::Map32
    } else {
        Code::Reserved
    }
}

/// The byte that stands for a code.
pub open spec fn code_byte(c: Code) -> u8 {
    match c {
        Code::Nil => NIL,
        Code::True => TRUE,
        Code::False => FALSE,
        Code::PosInt(v) => v,
        Code::NegInt(v) => (v + 256) as u8,
        Code::Uint8 => UINT8,
        Code::Uint16 => UINT16,
        Code::Uint32 => UINT32,
        Code::Uint64 => UINT64,
        Code::Int8 => INT8,
        Code::Int16 => INT16,
        Code::Int32 => INT32,
        Code::Int64 => INT64,
        Code::Float32 => FLOAT32,
        Code::Float64 => FLOAT64,
        Code::FixStr(v) => (FIX_STR + v) as u8,
        Code::Str8 => STR8,
        Code::Str16 => STR16,
        Code::Str32 => STR32,
        Code::Bin8 => BIN8,
        Code::Bin16 => BIN16,
        Code::Bin32 => BIN32,
        Code::FixArray(v) => (FIX_ARRAY + v) as u8,
        Code::Array16 => ARRAY16,
        Code::Array32 => ARRAY32,
        Code::FixMap(v) => (FIX_MAP + v) as u8,
        Code::Map16 => MAP16,
        Code::Map32 => MAP32,
        Code::FixExt1 => FIXEXT1,
        Code::FixExt2 => FIXEXT2,
        Code::FixExt4 => FIXEXT4,
        Code::FixExt8 => FIXEXT8,
        Code::FixExt16 => FIXEXT16,
        Code::Ext8 => EXT8,
        Code::Ext16 => EXT16,
        Code::Ext32 => EXT32,
        Code::Reserved => RESERVED,
    }
}

impl Code {
    /// A code is well formed when the bits it carries fit its fix range.
    pub open spec fn wf(self) -> bool {
        match self {
            Code::PosInt(v) => v <= 0x7f,
            Code::NegInt(v) => -32 <= v <= -1,
            Code::FixStr(v) => v < 32,
            Code::FixArray(v) => v < 16,
            Code::FixMap(v) => v < 16,
            _ => true,
        }
    }

    /// Classifies a leading byte. Every byte maps to a code; `0xc1` maps to
    /// `Reserved`.
    pub fn from_u8(v: u8) -> (r: Code)
        ensures
            r == classify(v),
            r.wf(),
            code_byte(r) == v,
    {
        if v <= 0x7f {
            Code::PosInt(v)
        } else if v <= 0x8f {
            Code::FixMap(v - 0x80)
        } else if v <= 0x9f {
            Code::FixArray(v - 0x90)
        } else if v <= 0xbf {
            Code::FixStr(v - 0xa0)
        } else if v >= 0xe0 {
            Code::NegInt(((v as i16) - 256) as i8)
        } else if v == NIL {
            Code::Nil
        } else if v == FALSE {
            Code::False
        } else if v == TRUE {
            Code::True
        } else if v == BIN8 {
            Code::Bin8
        } else if v == BIN16 {
            Code::Bin16
        } else if v == BIN32 {
            Code::Bin32
        } else if v == EXT8 {
            Code::Ext8
        } else if v == EXT16 {
            Code::Ext16
        } else if v == EXT32 {
            Code::Ext32
        } else if v == FLOAT32 {
            Code::Float32
        } else if v == FLOAT64 {
            Code::Float64
        } else if v == UINT8 {
            Code::Uint8
        } else if v == UINT16 {
            Code::Uint16
        } else if v == UINT32 {
            Code::Uint32
        } else if v == UINT64 {
            Code::Uint64
        } else if v == INT8 {
            Code::Int8
        } else if v == INT16 {
            Code::Int16
        } else if v == INT32 {
            Code::Int32
        } else if v == INT64 {
            Code::Int64
        } else if v == FIXEXT1 {
            Code::FixExt1
        } else if v == FIXEXT2 {
            Code::FixExt2
        } else if v == FIXEXT4 {
            Code::FixExt4
        } else if v == FIXEXT8 {
            Code::FixExt8
        } else if v == FIXEXT16 {
            Code::FixExt16
        } else if v == STR8 {
            Code::Str8
        } else if v == STR16 {
            Code::Str16
        } else if v == STR32 {
            Code::Str32
        } else if v == ARRAY16 {
            Code::Array16
        } else if v == ARRAY32 {
            Code::Array32
        } else if v == MAP16 {
            Code::Map16
        } else if v == MAP32 {
            Code::Map32
        } else {
            Code::Reserved
        }
    }

    /// The byte that stands for this code; for a well-formed code,
    /// classifying that byte gives the code back.
    pub fn to_u8(&self) -> (r: u8)
        requires
            self.wf(),
        ensures
            r == code_byte(*self),
            classify(r) == *self,
    {
        match *self {
            Code::Nil => NIL,
            Code::True => TRUE,
            Code::False => FALSE,
            Code::PosInt(v) => v,
            Code::NegInt(v) => ((v as i16) + 256) as u8,
            Code::Uint8 => UINT8,
            Code::Uint16 => UINT16,
            Code::Uint32 => UINT32,
            Code::Uint64 => UINT64,
            Code::Int8 => INT8,
            Code::Int16 => INT16,
            Code::Int32 => INT32,
            Code::Int64 => INT64,
            Code::Float32 => FLOAT32,
            Code::Float64 => FLOAT64,
            Code::FixStr(v) => FIX_STR + v,
            Code::Str8 => STR8,
            Code::Str16 => STR16,
            Code::Str32 => STR32,
            Code::Bin8 => BIN8,
            Code::Bin16 => BIN16,
            Code::Bin32 => BIN32,
            Code::FixArray(v) => FIX_ARRAY + v,
            Code::Array16 => ARRAY16,
            Code::Array32 => ARRAY32,
            Code::FixMap(v) => FIX_MAP + v,
            Code::Map16 => MAP16,
            Code::Map32 => MAP32,
            Code::FixExt1 => FIXEXT1,
            Code::FixExt2 => FIXEXT2,
            Code::FixExt4 => FIXEXT4,
            Code::FixExt8 => FIXEXT8,
            Code::FixExt16 => FIXEXT16,
            Code::Ext8 => EXT8,
            Code::Ext16 => EXT16,
            Code::Ext32 => EXT32,
            Code::Reserved => RESERVED,
        }
    }
}

impl From<u8> for Code {
    fn from(v: u8) -> (r: Code) {
        Code::from_u8(v)
    }
}

impl vstd::std_specs::convert::FromSpecImpl<u8> for Code {
    open spec fn obeys_from_spec() -> bool {
        true
    }

    open spec fn from_spec(v: u8) -> Code {
        classify(v)
    }
}

/// Classifying a byte and writing the code back gives the byte.
pub proof fn lemma_classify_inverse(b: u8)
    ensures
        code_byte(classify(b)) == b,
        classify(b).wf(),
{
}

} // verus!
