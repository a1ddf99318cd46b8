//! Lazy sequences of decoded values, and the value-level handles.
use crate::error::{PackError, UnpackError};
use crate::pack_value::{enc_value, fits, tags_ok};
use crate::packer::Packer;
use crate::read::{advanced, BufferedRead};
use crate::unpack_ref::{ref_value_read, unpack_value_ref};
use crate::error::eof;
use crate::value::strings_wf;
use crate::unpack_value::tree_error;
use crate::unpack_value::parse_value;
use crate::unpacker::{InnerBuf, Unpacker};
use crate::value::{RefValue, Value};
use vstd::prelude::*;

verus! {

/// Yields the values that an unpacker decodes, one per call of `next`.
pub struct UnpackerIter<R>(pub R);

impl<R> UnpackerIter<R> {
    pub fn new(inner: R) -> (r: Self)
        ensures
            r.0 == inner,
    {
        UnpackerIter(inner)
    }
}

impl<'u> UnpackerIter<&'u mut Unpacker<InnerBuf>> {
    /// The next whole value written to the unpacker, or `None` when what is
    /// left does not hold one; then nothing is dropped, and writing more
    /// bytes lets a later call give the value.
    pub fn next(&mut self) -> (r: Option<Value>)
        ensures
            parse_value(old(self).0.pending()) matches Some((m, n)) ==> (r matches Some(v) && v@
                == m) && final(self).0.pending() == old(self).0.pending().subrange(
                n,
                old(self).0.pending().len() as int,
            ),
            parse_value(old(self).0.pending()) is None ==> r is None && final(self).0.pending()
                == old(self).0.pending(),
    {
        match self.0.unpack_value() {
            Ok(v) => Some(v),
            Err(_) => None,
        }
    }
}

impl Unpacker<InnerBuf> {
    /// The values written so far, decoded lazily.
    pub fn iter(&mut self) -> (r: UnpackerIter<&mut Unpacker<InnerBuf>>)
        ensures
            (*r.0).pending() == old(self).pending(),
            final(self).pending() == (*final(r.0)).pending(),
    {
        UnpackerIter::new(self)
    }
}

/// Decoding of borrowed values from a slice-backed source.
pub struct RefUnpacker;

/// Yields the borrowed values that a source holds, one per call of `next`.
pub struct RefUnpackFeeder<'b, R>(pub &'b mut R);

impl RefUnpacker {
    /// The values of `rd`, decoded lazily.
    pub fn feed<'a, 'b, R: BufferedRead<'a>>(rd: &'b mut R) -> (r: RefUnpackFeeder<'b, R>)
        ensures
            *r.0 == *old(rd),
            *final(rd) == *final(r.0),
    {
        RefUnpackFeeder(rd)
    }

    pub fn unpack_ref_value<'a, R: BufferedRead<'a>>(rd: &mut R) -> (r: Result<RefValue<'a>, UnpackError>)
        ensures
            ref_value_read(old(rd).remaining(), final(rd).remaining(), r),
    {
        unpack_value_ref(rd)
    }
}

impl<'a, 'b, R: BufferedRead<'a>> RefUnpackFeeder<'b, R> {
    /// The next whole value, or `None` at the end or on bytes that do not
    /// decode.
    pub fn next(&mut self) -> (r: Option<RefValue<'a>>)
        ensures
            parse_value(old(self).0.remaining()) matches Some((m, n)) ==> (r matches Some(v) && v@
                == m) && advanced(old(self).0.remaining(), final(self).0.remaining(), n),
            parse_value(old(self).0.remaining()) is None ==> r is None,
    {
        match unpack_value_ref(self.0) {
            Ok(v) => Some(v),
            Err(_) => None,
        }
    }
}

/// Packs whole values onto a byte vector.
pub struct ValuePacker {
    packer: Packer,
}

impl ValuePacker {
    pub fn new(writer: Vec<u8>) -> (r: Self)
        ensures
            r.written() == writer@,
    {
        ValuePacker { packer: Packer::new(writer) }
    }

    pub closed spec fn written(&self) -> Seq<u8> {
        self.packer@
    }

    pub fn pack_value(&mut self, v: Value) -> (r: Result<(), PackError>)
        requires
            fits(v@),
        ensures
            r is Ok == tags_ok(v@),
            r is Ok ==> final(self).written() == old(self).written() + enc_value(v@),
    {
        self.packer.pack_value(v)
    }

    pub fn into_inner(self) -> (r: Vec<u8>)
        ensures
            r@ == self.written(),
    {
        self.packer.into_inner()
    }
}

/// Decodes whole values from bytes written into it (feed mode).
pub struct ValueUnpacker {
    unpacker: Unpacker<InnerBuf>,
}

impl ValueUnpacker {
    pub closed spec fn pending(&self) -> Seq<u8> {
        self.unpacker.pending()
    }

    pub fn new() -> (r: Self)
        ensures
            r.pending() == Seq::<u8>::empty(),
    {
        ValueUnpacker { unpacker: Unpacker::new() }
    }

    /// Appends bytes to decode later; takes them all.
    pub fn write(&mut self, buf: &[u8]) -> (r: Result<usize, UnpackError>)
        ensures
            r == Ok::<usize, UnpackError>(buf@.len() as usize),
            final(self).pending() == old(self).pending() + buf@,
    {
        self.unpacker.write(buf)
    }

    /// The value at the front of what was written; on failure nothing is
    /// dropped.
    pub fn unpack_value(&mut self) -> (r: Result<Value, UnpackError>)
        ensures
            parse_value(old(self).pending()) matches Some((m, n)) ==> (r matches Ok(v) && v@ == m)
                && final(self).pending() == old(self).pending().subrange(n, old(self).pending().len() as int),
            parse_value(old(self).pending()) is None ==> r is Err && final(self).pending() == old(self).pending(),
            old(self).pending().len() == 0 ==> r == Err::<Value, UnpackError>(eof()),
            r matches Err(e) ==> tree_error(old(self).pending(), e),
            r matches Ok(v) ==> strings_wf(v),
    {
        self.unpacker.unpack_value()
    }

    /// The values written so far, decoded lazily.
    pub fn iter(&mut self) -> (r: UnpackerIter<&mut Unpacker<InnerBuf>>)
        ensures
            (*r.0).pending() == old(self).pending(),
            final(self).pending() == (*final(r.0)).pending(),
    {
        self.unpacker.iter()
    }
}

} // verus!
