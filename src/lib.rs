//! MessagePack: a compact, self-describing binary encoding.
//!
//! Packing appends the encoding of a value to a byte vector; unpacking reads
//! from any source with the [`BufferedRead`] capability. Every encoding and
//! decoding step is stated as a specification over byte sequences and proved;
//! the laws that tie the two directions together are in [`laws`].
use vstd::prelude::*;

pub mod code;
pub mod de;
pub mod error;
pub mod ext;
pub mod feed;
pub mod iter;
pub mod laws;
pub mod pack;
pub mod pack_value;
pub mod packer;
pub mod primitive;
pub mod read;
pub mod ser;
pub mod text;
pub mod unpack;
pub mod unpack_ext;
pub mod unpack_ref;
pub mod unpack_text;
pub mod unpack_value;
pub mod unpacker;
pub mod value;
pub mod value_conv;

pub use code::Code;
pub use de::{DeError, Deserializer, PeekReader, Route};
pub use error::{DataError, PackError, RangeError, UnpackError};
pub use ext::{Ext, ExtType, Timestamp};
pub use iter::{RefUnpackFeeder, RefUnpacker, UnpackerIter, ValuePacker, ValueUnpacker};
pub use pack::{
    pack_array_header, pack_ary_header, pack_bin, pack_bool, pack_ext_header, pack_f32, pack_f64,
    pack_from_i16, pack_from_i32, pack_from_i64, pack_from_i8, pack_from_u16, pack_from_u32,
    pack_from_u64, pack_from_u8, pack_i16, pack_i32, pack_i64, pack_i8, pack_map_header,
    pack_neg_fix_int, pack_nil, pack_pos_fixint, pack_str, pack_str_from_slice, pack_timestamp,
    pack_timestamp32, pack_timestamp64, pack_timestamp96, pack_u16, pack_u32, pack_u64, pack_u8,
    write_payload,
};
pub use pack_value::pack_value;
pub use packer::Packer;
pub use primitive::write_all;
pub use read::{BufferedRead, SliceCursor};
pub use ser::{Compound, ExtField, ExtSerializer, SerError, Serializer};
pub use unpack::{
    read_code, unpack_array_header, unpack_ary_header, unpack_bin, unpack_bin_data,
    unpack_bin_header, unpack_bool, unpack_data, unpack_data_ref, unpack_ext_type_data,
    unpack_ext_type_data_ref, unpack_f32, unpack_f64, unpack_i16, unpack_i32, unpack_i64,
    unpack_i8, unpack_map_header, unpack_nil, unpack_str_header, unpack_u16, unpack_u32,
    unpack_u64, unpack_u8,
};
pub use unpack_ext::{
    unpack_ext_header, unpack_fixext1, unpack_fixext16, unpack_fixext2, unpack_fixext4,
    unpack_fixext8, unpack_timestamp32, unpack_timestamp64, unpack_timestamp96,
};
pub use unpack_ref::{unpack_ary, unpack_ary_data, unpack_map, unpack_value_ref};
pub use unpack_text::{unpack_str, unpack_str_ref};
pub use unpack_value::{unpack_array_data, unpack_map_data, unpack_str_data, unpack_value};
pub use unpacker::{InnerBuf, Unpacker};
pub use value::{
    Float, FloatNumber, Integer, Number, RefValue, Utf8String, Utf8StringRef, Value, ValueModel,
};

verus! {

/// The bytes of a borrowed binary, from the reader's backing slice.
pub fn unpack_bin_ref<'a, R: BufferedRead<'a>>(reader: &mut R) -> (r: Result<&'a [u8], UnpackError>)
    ensures
        unpack::decoded(
            old(reader).remaining(),
            final(reader).remaining(),
            unpack::view_ref(r),
            unpack::with_payload(
                old(reader).remaining(),
                unpack::spec_unpack_bin_header(old(reader).remaining()),
            ),
        ),
{
    unpack_ref::unpack_bin(reader)
}

} // verus!
