//! The packing handle: a writer that values are packed onto in turn.
use crate::code::{FLOAT32, FLOAT64, NIL};
use crate::error::{PackError, RangeError};
use crate::pack::{
    array_header, bin_header, enc_bool, enc_i16, enc_i32, enc_i64, enc_i8, enc_int, enc_u16,
    enc_u32, enc_u64, enc_u8, enc_uint, ext_header, len_fits, map_header, pack_array_header,
    pack_bin, pack_bool, pack_ext_header, pack_f32, pack_f64, pack_from_i16, pack_from_i32,
    pack_from_i64, pack_from_i8, pack_from_u16, pack_from_u32, pack_from_u64, pack_from_u8,
    pack_i16, pack_i32, pack_i64, pack_i8, pack_map_header, pack_nil, pack_str, pack_u16,
    pack_u32, pack_u64, pack_u8, str_header, write_payload,
};
use crate::pack_value::{enc_value, fits, pack_value, tags_ok};
use crate::primitive::be_bytes;
use crate::value::Value;
use vstd::prelude::*;
use vstd::string::StringSliceAdditionalSpecFns;

verus! {

/// Packs values onto a byte vector that it owns until `into_inner`.
#[derive(Debug)]
pub struct Packer {
    wr: Vec<u8>,
}

impl View for Packer {
    type V = Seq<u8>;

    /// The bytes written so far.
    closed spec fn view(&self) -> Seq<u8> {
        self.wr@
    }
}

impl Packer {
    /// Packs after what `writer` already holds.
    pub fn new(writer: Vec<u8>) -> (r: Packer)
        ensures
            r@ == writer@,
    {
        Packer { wr: writer }
    }

    pub fn get_ref(&self) -> (r: &Vec<u8>)
        ensures
            r@ == self@,
    {
        &self.wr
    }

    /// The writer itself; what is done to it is what the packer holds after.
    pub fn get_mut(&mut self) -> (r: &mut Vec<u8>)
        ensures
            (*r)@ == old(self)@,
            final(self)@ == (*final(r))@,
    {
        &mut self.wr
    }

    pub fn into_inner(self) -> (r: Vec<u8>)
        ensures
            r@ == self@,
    {
        self.wr
    }

    /// Nothing is buffered: the bytes are in the vector already.
    pub fn flush(&mut self) -> (r: Result<(), PackError>)
        ensures
            r is Ok,
            final(self)@ == old(self)@,
    {
        Ok(())
    }

    pub fn pack_nil(&mut self) -> (r: Result<(), PackError>)
        ensures
            r is Ok,
            final(self)@ == old(self)@.push(NIL),
    {
        pack_nil(&mut self.wr)
    }

    pub fn pack_uint(&mut self, v: u64) -> (r: Result<(), PackError>)
        ensures
            r is Ok,
            final(self)@ == old(self)@ + enc_uint(v as nat),
    {
        pack_from_u64(&mut self.wr, v)
    }

    pub fn pack_u8(&mut self, v: u8) -> (r: Result<(), PackError>)
        ensures
            r is Ok,
            final(self)@ == old(self)@ + enc_u8(v as nat),
    {
        pack_u8(&mut self.wr, v)
    }

    pub fn pack_u16(&mut self, v: u16) -> (r: Result<(), PackError>)
        ensures
            r is Ok,
            final(self)@ == old(self)@ + enc_u16(v as nat),
    {
        pack_u16(&mut self.wr, v)
    }

    pub fn pack_u32(&mut self, v: u32) -> (r: Result<(), PackError>)
        ensures
            r is Ok,
            final(self)@ == old(self)@ + enc_u32(v as nat),
    {
        pack_u32(&mut self.wr, v)
    }

    pub fn pack_u64(&mut self, v: u64) -> (r: Result<(), PackError>)
        ensures
            r is Ok,
            final(self)@ == old(self)@ + enc_u64(v as nat),
    {
        pack_u64(&mut self.wr, v)
    }

    pub fn pack_from_u8(&mut self, v: u8) -> (r: Result<(), PackError>)
        ensures
            r is Ok,
            final(self)@ == old(self)@ + enc_uint(v as nat),
    {
        pack_from_u8(&mut self.wr, v)
    }

    pub fn pack_from_u16(&mut self, v: u16) -> (r: Result<(), PackError>)
        ensures
            r is Ok,
            final(self)@ == old(self)@ + enc_uint(v as nat),
    {
        pack_from_u16(&mut self.wr, v)
    }

    pub fn pack_from_u32(&mut self, v: u32) -> (r: Result<(), PackError>)
        ensures
            r is Ok,
            final(self)@ == old(self)@ + enc_uint(v as nat),
    {
        pack_from_u32(&mut self.wr, v)
    }

    pub fn pack_from_u64(&mut self, v: u64) -> (r: Result<(), PackError>)
        ensures
            r is Ok,
            final(self)@ == old(self)@ + enc_uint(v as nat),
    {
        pack_from_u64(&mut self.wr, v)
    }

    pub fn pack_int(&mut self, v: i64) -> (r: Result<(), PackError>)
        ensures
            r is Ok,
            final(self)@ == old(self)@ + enc_int(v as int),
    {
        pack_from_i64(&mut self.wr, v)
    }

    pub fn pack_i8(&mut self, v: i8) -> (r: Result<(), PackError>)
        ensures
            r is Ok,
            final(self)@ == old(self)@ + enc_i8(v as int),
    {
        pack_i8(&mut self.wr, v)
    }

    pub fn pack_i16(&mut self, v: i16) -> (r: Result<(), PackError>)
        ensures
            r is Ok,
            final(self)@ == old(self)@ + enc_i16(v as int),
    {
        pack_i16(&mut self.wr, v)
    }

    pub fn pack_i32(&mut self, v: i32) -> (r: Result<(), PackError>)
        ensures
            r is Ok,
            final(self)@ == old(self)@ + enc_i32(v as int),
    {
        pack_i32(&mut self.wr, v)
    }

    pub fn pack_i64(&mut self, v: i64) -> (r: Result<(), PackError>)
        ensures
            r is Ok,
            final(self)@ == old(self)@ + enc_i64(v as int),
    {
        pack_i64(&mut self.wr, v)
    }

    pub fn pack_from_i8(&mut self, v: i8) -> (r: Result<(), PackError>)
        ensures
            r is Ok,
            final(self)@ == old(self)@ + enc_int(v as int),
    {
        pack_from_i8(&mut self.wr, v)
    }

    pub fn pack_from_i16(&mut self, v: i16) -> (r: Result<(), PackError>)
        ensures
            r is Ok,
            final(self)@ == old(self)@ + enc_int(v as int),
    {
        pack_from_i16(&mut self.wr, v)
    }

    pub fn pack_from_i32(&mut self, v: i32) -> (r: Result<(), PackError>)
        ensures
            r is Ok,
            final(self)@ == old(self)@ + enc_int(v as int),
    {
        pack_from_i32(&mut self.wr, v)
    }

    pub fn pack_from_i64(&mut self, v: i64) -> (r: Result<(), PackError>)
        ensures
            r is Ok,
            final(self)@ == old(self)@ + enc_int(v as int),
    {
        pack_from_i64(&mut self.wr, v)
    }

    /// A single-precision float, given as its IEEE 754 bit pattern.
    pub fn pack_f32(&mut self, bits: u32) -> (r: Result<(), PackError>)
        ensures
            r is Ok,
            final(self)@ == old(self)@ + (seq![FLOAT32] + be_bytes(bits as nat, 4)),
    {
        pack_f32(&mut self.wr, bits)
    }

    /// A double-precision float, given as its IEEE 754 bit pattern.
    pub fn pack_f64(&mut self, bits: u64) -> (r: Result<(), PackError>)
        ensures
            r is Ok,
            final(self)@ == old(self)@ + (seq![FLOAT64] + be_bytes(bits as nat, 8)),
    {
        pack_f64(&mut self.wr, bits)
    }

    pub fn pack_bool(&mut self, v: bool) -> (r: Result<(), PackError>)
        ensures
            r is Ok,
            final(self)@ == old(self)@ + enc_bool(v),
    {
        pack_bool(&mut self.wr, v)
    }

    pub fn pack_str(&mut self, v: &str) -> (r: Result<(), PackError>)
        requires
            len_fits(v.spec_bytes().len()),
        ensures
            r is Ok,
            final(self)@ == old(self)@ + str_header(v.spec_bytes().len()) + v.spec_bytes(),
    {
        pack_str(&mut self.wr, v)
    }

    pub fn pack_bin(&mut self, v: &[u8]) -> (r: Result<(), PackError>)
        requires
            len_fits(v@.len()),
        ensures
            r is Ok,
            final(self)@ == old(self)@ + bin_header(v@.len()) + v@,
    {
        pack_bin(&mut self.wr, v)
    }

    pub fn pack_array_header(&mut self, len: usize) -> (r: Result<(), PackError>)
        requires
            len_fits(len as nat),
        ensures
            r is Ok,
            final(self)@ == old(self)@ + array_header(len as nat),
    {
        pack_array_header(&mut self.wr, len)
    }

    pub fn pack_map_header(&mut self, len: usize) -> (r: Result<(), PackError>)
        requires
            len_fits(len as nat),
        ensures
            r is Ok,
            final(self)@ == old(self)@ + map_header(len as nat),
    {
        pack_map_header(&mut self.wr, len)
    }

    /// Payload bytes as they are; used after `pack_ext_header`.
    pub fn write_payload(&mut self, v: &[u8]) -> (r: Result<(), PackError>)
        ensures
            r is Ok,
            final(self)@ == old(self)@ + v@,
    {
        write_payload(&mut self.wr, v)
    }

    /// An extension header; negative types are reserved and refused.
    pub fn pack_ext_header(&mut self, ext_type: i8, len: usize) -> (r: Result<(), PackError>)
        requires
            len_fits(len as nat),
        ensures
            ext_type >= 0 ==> r is Ok && final(self)@ == old(self)@ + ext_header(ext_type, len as nat),
            ext_type < 0 ==> r == Err::<(), PackError>(PackError::OutOfRange(RangeError::ExtType(ext_type)))
                && final(self)@ == old(self)@,
    {
        pack_ext_header(&mut self.wr, ext_type, len)
    }

    /// A whole value tree; fails exactly when it holds a reserved extension
    /// type.
    pub fn pack_value(&mut self, v: Value) -> (r: Result<(), PackError>)
        requires
            fits(v@),
        ensures
            r is Ok == tags_ok(v@),
            r is Ok ==> final(self)@ == old(self)@ + enc_value(v@),
    {
        pack_value(&mut self.wr, v)
    }
}

} // verus!
