//! The encoding side of the data-model bridge: how each concept of a
//! visitor-driven serialization framework is written. The framework's own
//! traits are implemented outside the library, on top of these methods.
use crate::code::NIL;
use crate::error::PackError;
use crate::pack::{
    array_header, bin_header, enc_bool, enc_int, enc_uint, len_fits, map_header, pack_array_header,
    pack_bin, pack_bool, pack_f32, pack_f64, pack_from_i16, pack_from_i32, pack_from_i64,
    pack_from_i8, pack_from_u16, pack_from_u32, pack_from_u64, pack_from_u8, pack_map_header,
    pack_nil, pack_str, str_header,
};
use crate::packer::Packer;
use crate::primitive::{
    be_bytes, twos, write_all, write_data_i8, write_data_u16, write_data_u32, write_data_u8,
};
use vstd::prelude::*;
use vstd::string::StringSliceAdditionalSpecFns;

verus! {

/// The name of the tuple struct that stands for a raw extension: its
/// fields are written as they are, by the ext sub-serializer.
pub const EXT_TOKEN: &'static str = "$serde_json::private::Ext";

/// Why a value could not be serialized.
#[derive(Debug)]
pub enum SerError {
    /// A sequence or map whose length is not known up front.
    MustHaveLength,
    PackError(PackError),
    /// The ext sub-serializer takes bytes and integers only.
    InvalidSerializeMethod(&'static str),
    Custom(String),
}

/// The text of a string as bytes on the wire, header included.
pub open spec fn enc_str(s: Seq<u8>) -> Seq<u8> {
    str_header(s.len()) + s
}

/// Whether two strings hold the same text.
pub fn same_text(a: &str, b: &str) -> (r: bool)
    ensures
        r == (a@ == b@),
{
    let x = a.as_bytes();
    let y = b.as_bytes();
    proof {
        vstd::utf8::encode_utf8_decode_utf8(a@);
        vstd::utf8::encode_utf8_decode_utf8(b@);
    }
    if x.len() != y.len() {
        return false;
    }
    let mut i: usize = 0;
    while i < x.len()
        invariant
            x@.len() == y@.len(),
            x@ == a.spec_bytes(),
            y@ == b.spec_bytes(),
            i <= x@.len(),
            forall|j: int| 0 <= j < i ==> x@[j] == y@[j],
        decreases x@.len() - i,
    {
        if x[i] != y[i] {
            assert(x@[i as int] != y@[i as int]);
            assert(x@ != y@);
            return false;
        }
        i = i + 1;
    }
    assert(x@ =~= y@);
    true
}

/// Writes values onto a byte vector, one data-model concept at a time.
#[derive(Debug)]
pub struct Serializer {
    wr: Vec<u8>,
}

/// The state of a compound being serialized: its elements either go
/// through the serializer as values, or, for the ext token, as raw fields.
#[derive(Debug)]
pub enum Compound {
    Normal,
    Ext(ExtSerializer),
}

impl View for Serializer {
    type V = Seq<u8>;

    closed spec fn view(&self) -> Seq<u8> {
        self.wr@
    }
}

impl Serializer {
    pub fn new(wr: Vec<u8>) -> (r: Self)
        ensures
            r@ == wr@,
    {
        Serializer { wr }
    }

    pub fn into_inner(self) -> (r: Vec<u8>)
        ensures
            r@ == self@,
    {
        self.wr
    }

    /// The elements that follow go through this serializer.
    pub fn compound(&mut self) -> (r: Compound)
        ensures
            r is Normal,
            final(self)@ == old(self)@,
    {
        Compound::Normal
    }

    /// The fields that follow are raw extension fields.
    pub fn compound_ext(&mut self) -> (r: Compound)
        ensures
            r is Ext,
            final(self)@ == old(self)@,
    {
        Compound::Ext(ExtSerializer::new())
    }

    pub fn serialize_bool(&mut self, v: bool) -> (r: Result<(), SerError>)
        ensures
            r is Ok,
            final(self)@ == old(self)@ + enc_bool(v),
    {
        let _ = pack_bool(&mut self.wr, v);
        Ok(())
    }

    pub fn serialize_i8(&mut self, v: i8) -> (r: Result<(), SerError>)
        ensures
            r is Ok,
            final(self)@ == old(self)@ + enc_int(v as int),
    {
        let _ = pack_from_i8(&mut self.wr, v);
        Ok(())
    }

    pub fn serialize_i16(&mut self, v: i16) -> (r: Result<(), SerError>)
        ensures
            r is Ok,
            final(self)@ == old(self)@ + enc_int(v as int),
    {
        let _ = pack_from_i16(&mut self.wr, v);
        Ok(())
    }

    pub fn serialize_i32(&mut self, v: i32) -> (r: Result<(), SerError>)
        ensures
            r is Ok,
            final(self)@ == old(self)@ + enc_int(v as int),
    {
        let _ = pack_from_i32(&mut self.wr, v);
        Ok(())
    }

    pub fn serialize_i64(&mut self, v: i64) -> (r: Result<(), SerError>)
        ensures
            r is Ok,
            final(self)@ == old(self)@ + enc_int(v as int),
    {
        let _ = pack_from_i64(&mut self.wr, v);
        Ok(())
    }

    pub fn serialize_u8(&mut self, v: u8) -> (r: Result<(), SerError>)
        ensures
            r is Ok,
            final(self)@ == old(self)@ + enc_uint(v as nat),
    {
        let _ = pack_from_u8(&mut self.wr, v);
        Ok(())
    }

    pub fn serialize_u16(&mut self, v: u16) -> (r: Result<(), SerError>)
        ensures
            r is Ok,
            final(self)@ == old(self)@ + enc_uint(v as nat),
    {
        let _ = pack_from_u16(&mut self.wr, v);
        Ok(())
    }

    pub fn serialize_u32(&mut self, v: u32) -> (r: Result<(), SerError>)
        ensures
            r is Ok,
            final(self)@ == old(self)@ + enc_uint(v as nat),
    {
        let _ = pack_from_u32(&mut self.wr, v);
        Ok(())
    }

    pub fn serialize_u64(&mut self, v: u64) -> (r: Result<(), SerError>)
        ensures
            r is Ok,
            final(self)@ == old(self)@ + enc_uint(v as nat),
    {
        let _ = pack_from_u64(&mut self.wr, v);
        Ok(())
    }

    /// A single-precision float, given as its IEEE 754 bit pattern.
    pub fn serialize_f32(&mut self, bits: u32) -> (r: Result<(), SerError>)
        ensures
            r is Ok,
            final(self)@ == old(self)@ + (seq![crate::code::FLOAT32] + be_bytes(bits as nat, 4)),
    {
        let _ = pack_f32(&mut self.wr, bits);
        Ok(())
    }

    /// A double-precision float, given as its IEEE 754 bit pattern.
    pub fn serialize_f64(&mut self, bits: u64) -> (r: Result<(), SerError>)
        ensures
            r is Ok,
            final(self)@ == old(self)@ + (seq![crate::code::FLOAT64] + be_bytes(bits as nat, 8)),
    {
        let _ = pack_f64(&mut self.wr, bits);
        Ok(())
    }

    pub fn serialize_str(&mut self, v: &str) -> (r: Result<(), SerError>)
        requires
            len_fits(v.spec_bytes().len()),
        ensures
            r is Ok,
            final(self)@ == old(self)@ + enc_str(v.spec_bytes()),
    {
        let _ = pack_str(&mut self.wr, v);
        Ok(())
    }

    pub fn serialize_bytes(&mut self, v: &[u8]) -> (r: Result<(), SerError>)
        requires
            len_fits(v@.len()),
        ensures
            r is Ok,
            final(self)@ == old(self)@ + bin_header(v@.len()) + v@,
    {
        let _ = pack_bin(&mut self.wr, v);
        Ok(())
    }

    /// The unit value, and an absent optional value: nil.
    pub fn serialize_unit(&mut self) -> (r: Result<(), SerError>)
        ensures
            r is Ok,
            final(self)@ == old(self)@.push(NIL),
    {
        let _ = pack_nil(&mut self.wr);
        Ok(())
    }

    pub fn serialize_none(&mut self) -> (r: Result<(), SerError>)
        ensures
            r is Ok,
            final(self)@ == old(self)@.push(NIL),
    {
        self.serialize_unit()
    }

    /// A unit struct: an empty array.
    pub fn serialize_unit_struct(&mut self, _name: &str) -> (r: Result<(), SerError>)
        ensures
            r is Ok,
            final(self)@ == old(self)@ + array_header(0),
    {
        let _ = pack_array_header(&mut self.wr, 0);
        Ok(())
    }

    /// A unit variant `V`: a map of one entry, "V" to nil.
    pub fn serialize_unit_variant(&mut self, _name: &str, _idx: u32, variant: &str) -> (r: Result<(), SerError>)
        requires
            len_fits(variant.spec_bytes().len()),
        ensures
            r is Ok,
            final(self)@ == old(self)@ + map_header(1) + enc_str(variant.spec_bytes()) + seq![NIL],
    {
        let _ = pack_map_header(&mut self.wr, 1);
        let _ = pack_str(&mut self.wr, variant);
        let _ = pack_nil(&mut self.wr);
        Ok(())
    }

    /// The start of a newtype variant `V(x)`: a map of one entry, "V" to the
    /// value that is serialized next.
    pub fn serialize_newtype_variant(&mut self, _name: &str, _idx: u32, variant: &str) -> (r: Result<(), SerError>)
        requires
            len_fits(variant.spec_bytes().len()),
        ensures
            r is Ok,
            final(self)@ == old(self)@ + map_header(1) + enc_str(variant.spec_bytes()),
    {
        let _ = pack_map_header(&mut self.wr, 1);
        let _ = pack_str(&mut self.wr, variant);
        Ok(())
    }

    /// A sequence: its length must be known.
    pub fn serialize_seq(&mut self, len: Option<usize>) -> (r: Result<Compound, SerError>)
        requires
            len matches Some(n) ==> len_fits(n as nat),
        ensures
            len matches Some(n) ==> r matches Ok(c) && c is Normal && final(self)@ == old(self)@
                + array_header(n as nat),
            len is None ==> (r matches Err(SerError::MustHaveLength)) && final(self)@ == old(self)@,
    {
        match len {
            Some(n) => {
                let _ = pack_array_header(&mut self.wr, n);
                Ok(self.compound())
            },
            None => Err(SerError::MustHaveLength),
        }
    }

    pub fn serialize_tuple(&mut self, len: usize) -> (r: Result<Compound, SerError>)
        requires
            len_fits(len as nat),
        ensures
            r matches Ok(c) && c is Normal,
            final(self)@ == old(self)@ + array_header(len as nat),
    {
        self.serialize_seq(Some(len))
    }

    /// A tuple struct: an array of its fields; the ext token instead starts
    /// raw extension fields, with no header.
    pub fn serialize_tuple_struct(&mut self, name: &str, len: usize) -> (r: Result<Compound, SerError>)
        requires
            len_fits(len as nat),
        ensures
            name@ == EXT_TOKEN@ ==> (r matches Ok(c) && c is Ext) && final(self)@ == old(self)@,
            name@ != EXT_TOKEN@ ==> (r matches Ok(c) && c is Normal) && final(self)@ == old(self)@
                + array_header(len as nat),
    {
        if same_text(name, EXT_TOKEN) {
            Ok(self.compound_ext())
        } else {
            self.serialize_tuple(len)
        }
    }

    /// A tuple variant `V(a, b, ...)`: a map of one entry, "V" to the array
    /// of its fields.
    pub fn serialize_tuple_variant(&mut self, _name: &str, _idx: u32, variant: &str, len: usize) -> (r: Result<Compound, SerError>)
        requires
            len_fits(len as nat),
            len_fits(variant.spec_bytes().len()),
        ensures
            r matches Ok(c) && c is Normal,
            final(self)@ == old(self)@ + map_header(1) + enc_str(variant.spec_bytes()) + array_header(len as nat),
    {
        let _ = pack_map_header(&mut self.wr, 1);
        let _ = pack_str(&mut self.wr, variant);
        let _ = pack_array_header(&mut self.wr, len);
        Ok(self.compound())
    }

    /// A map: its length must be known.
    pub fn serialize_map(&mut self, len: Option<usize>) -> (r: Result<Compound, SerError>)
        requires
            len matches Some(n) ==> len_fits(n as nat),
        ensures
            len matches Some(n) ==> r matches Ok(c) && c is Normal && final(self)@ == old(self)@
                + map_header(n as nat),
            len is None ==> (r matches Err(SerError::MustHaveLength)) && final(self)@ == old(self)@,
    {
        match len {
            Some(n) => {
                let _ = pack_map_header(&mut self.wr, n);
                Ok(self.compound())
            },
            None => Err(SerError::MustHaveLength),
        }
    }

    /// A struct: a map from field names to field values.
    pub fn serialize_struct(&mut self, _name: &str, len: usize) -> (r: Result<Compound, SerError>)
        requires
            len_fits(len as nat),
        ensures
            r matches Ok(c) && c is Normal,
            final(self)@ == old(self)@ + map_header(len as nat),
    {
        let _ = pack_map_header(&mut self.wr, len);
        Ok(self.compound())
    }

    /// The name of the struct field whose value is serialized next.
    pub fn serialize_field_name(&mut self, key: &str) -> (r: Result<(), SerError>)
        requires
            len_fits(key.spec_bytes().len()),
        ensures
            r is Ok,
            final(self)@ == old(self)@ + enc_str(key.spec_bytes()),
    {
        self.serialize_str(key)
    }

    /// A struct variant `V { ... }`: a map of one entry, "V" to the map of
    /// its fields.
    pub fn serialize_struct_variant(&mut self, _name: &str, _idx: u32, variant: &str, len: usize) -> (r: Result<Compound, SerError>)
        requires
            len_fits(len as nat),
            len_fits(variant.spec_bytes().len()),
        ensures
            r matches Ok(c) && c is Normal,
            final(self)@ == old(self)@ + map_header(1) + enc_str(variant.spec_bytes()) + map_header(len as nat),
    {
        let _ = pack_map_header(&mut self.wr, 1);
        let _ = pack_str(&mut self.wr, variant);
        let _ = pack_map_header(&mut self.wr, len);
        Ok(self.compound())
    }

    /// Writes one raw field of an extension through `ext`.
    pub fn ext_field(&mut self, ext: &mut ExtSerializer, field: ExtField) -> (r: Result<(), SerError>)
        ensures
            ext_field_bytes(field) matches Some(b) ==> r is Ok && final(self)@ == old(self)@ + b,
            ext_field_bytes(field) is None ==> (r matches Err(SerError::InvalidSerializeMethod(k))
                && field == ExtField::Other(k)) && final(self)@ == old(self)@,
    {
        ext.write_field(&mut self.wr, field)
    }
}

impl Packer {
    /// The elements that follow go through this packer.
    pub fn compound(&mut self) -> (r: Compound)
        ensures
            r is Normal,
            final(self)@ == old(self)@,
    {
        Compound::Normal
    }
}

/// One emission handed to the ext sub-serializer.
#[derive(Debug, Clone, Copy)]
pub enum ExtField<'b> {
    U8(u8),
    U16(u16),
    U32(u32),
    I8(i8),
    Bytes(&'b [u8]),
    /// Any other kind of emission, named.
    Other(&'static str),
}

/// The bytes a raw extension field stands for: integers big-endian, bytes
/// as they are; other emissions have none.
pub open spec fn ext_field_bytes<'b>(f: ExtField<'b>) -> Option<Seq<u8>> {
    match f {
        ExtField::U8(v) => Some(seq![v]),
        ExtField::U16(v) => Some(be_bytes(v as nat, 2)),
        ExtField::U32(v) => Some(be_bytes(v as nat, 4)),
        ExtField::I8(v) => Some(seq![twos(v as int, 1) as u8]),
        ExtField::Bytes(b) => Some(b@),
        ExtField::Other(_) => None,
    }
}

/// Writes the fields of a raw extension as they come: the code, for ext
/// 8/16/32 the length, the type, then the payload. It takes bytes and
/// integers only.
#[derive(Debug)]
pub struct ExtSerializer {
    fields: usize,
}

impl ExtSerializer {
    pub fn new() -> (r: Self)
        ensures
            r.count() == 0,
    {
        ExtSerializer { fields: 0 }
    }

    /// How many fields were written.
    pub closed spec fn count(&self) -> nat {
        self.fields as nat
    }

    pub fn write_field(&mut self, wr: &mut Vec<u8>, field: ExtField) -> (r: Result<(), SerError>)
        ensures
            ext_field_bytes(field) matches Some(b) ==> r is Ok && final(wr)@ == old(wr)@ + b,
            ext_field_bytes(field) is None ==> (r matches Err(SerError::InvalidSerializeMethod(k))
                && field == ExtField::Other(k)) && final(wr)@ == old(wr)@,
    {
        match field {
            ExtField::U8(v) => write_data_u8(wr, v),
            ExtField::U16(v) => write_data_u16(wr, v),
            ExtField::U32(v) => write_data_u32(wr, v),
            ExtField::I8(v) => write_data_i8(wr, v),
            ExtField::Bytes(b) => write_all(wr, b),
            ExtField::Other(kind) => {
                return Err(SerError::InvalidSerializeMethod(kind));
            },
        }
        if self.fields < usize::MAX {
            self.fields = self.fields + 1;
        }
        Ok(())
    }
}

} // verus!
