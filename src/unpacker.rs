//! The unpacking handles. Pull mode reads from a caller's `BufferedRead`
//! source; feed mode owns a growable buffer that bytes are written into, and
//! decodes whole values from its front.
use crate::code::{FIXEXT16, FIXEXT2, FIXEXT4, FIXEXT8};
use crate::error::UnpackError;
use crate::feed::{buf_advance, buf_bytes, buf_extend, buf_new, bytes_mut_contents};
use crate::read::{advanced, BufferedRead};
use crate::unpack::{
    decoded, spec_unpack_array_header, spec_unpack_bin_header, spec_unpack_bool, spec_unpack_f32,
    spec_unpack_f64, spec_unpack_i16, spec_unpack_i32, spec_unpack_i64, spec_unpack_i8,
    spec_unpack_map_header, spec_unpack_nil, spec_unpack_str_header, spec_unpack_u16,
    spec_unpack_u32, spec_unpack_u64, spec_unpack_u8, unpack_array_header, unpack_bin_header,
    unpack_bool, unpack_f32, unpack_f64, unpack_i16, unpack_i32, unpack_i64, unpack_i8,
    unpack_map_header, unpack_nil, unpack_str_header, unpack_u16, unpack_u32, unpack_u64,
    unpack_u8, view_ref, with_payload,
};
use crate::unpack_ext::{
    spec_unpack_fixext, spec_unpack_fixext1, unpack_fixext1, unpack_fixext16, unpack_fixext2,
    unpack_fixext4, unpack_fixext8, view_fixext,
};
use crate::unpack_ref::{ref_value_read, unpack_bin, unpack_value_ref};
use crate::unpack_text::{text_read, unpack_str, unpack_str_ref};
use crate::error::eof;
use crate::value::strings_wf;
use crate::unpack_value::tree_error;
use crate::unpack_value::{parse_value, unpack_value, value_read};
use crate::value::{RefValue, Value};
use bytes::BytesMut;
use vstd::prelude::*;

verus! {

/// Decodes from a caller's source (pull mode), or from a buffer of its own
/// that bytes are written into (feed mode, `Unpacker<InnerBuf>`).
#[derive(Debug)]
pub struct Unpacker<R> {
    inner: R,
}

impl<R> Unpacker<R> {
    pub fn from_reader(inner: R) -> (r: Self)
        ensures
            r.inner_spec() == inner,
    {
        Unpacker { inner }
    }

    pub closed spec fn inner_spec(&self) -> R {
        self.inner
    }

    pub fn into_inner(self) -> (r: R)
        ensures
            r == self.inner_spec(),
    {
        self.inner
    }
}

impl<'a, R: BufferedRead<'a>> Unpacker<R> {
    /// The bytes still to be read.
    pub closed spec fn rest(&self) -> Seq<u8> {
        self.inner.remaining()
    }

    pub proof fn lemma_rest(&self)
        ensures
            self.rest() == self.inner_spec().remaining(),
    {
    }

    pub fn unpack_u8(&mut self) -> (r: Result<u8, UnpackError>)
        ensures
            decoded(old(self).rest(), final(self).rest(), r, spec_unpack_u8(old(self).rest())),
    {
        unpack_u8(&mut self.inner)
    }

    pub fn unpack_u16(&mut self) -> (r: Result<u16, UnpackError>)
        ensures
            decoded(old(self).rest(), final(self).rest(), r, spec_unpack_u16(old(self).rest())),
    {
        unpack_u16(&mut self.inner)
    }

    pub fn unpack_u32(&mut self) -> (r: Result<u32, UnpackError>)
        ensures
            decoded(old(self).rest(), final(self).rest(), r, spec_unpack_u32(old(self).rest())),
    {
        unpack_u32(&mut self.inner)
    }

    pub fn unpack_u64(&mut self) -> (r: Result<u64, UnpackError>)
        ensures
            decoded(old(self).rest(), final(self).rest(), r, spec_unpack_u64(old(self).rest())),
    {
        unpack_u64(&mut self.inner)
    }

    pub fn unpack_i8(&mut self) -> (r: Result<i8, UnpackError>)
        ensures
            decoded(old(self).rest(), final(self).rest(), r, spec_unpack_i8(old(self).rest())),
    {
        unpack_i8(&mut self.inner)
    }

    pub fn unpack_i16(&mut self) -> (r: Result<i16, UnpackError>)
        ensures
            decoded(old(self).rest(), final(self).rest(), r, spec_unpack_i16(old(self).rest())),
    {
        unpack_i16(&mut self.inner)
    }

    pub fn unpack_i32(&mut self) -> (r: Result<i32, UnpackError>)
        ensures
            decoded(old(self).rest(), final(self).rest(), r, spec_unpack_i32(old(self).rest())),
    {
        unpack_i32(&mut self.inner)
    }

    pub fn unpack_i64(&mut self) -> (r: Result<i64, UnpackError>)
        ensures
            decoded(old(self).rest(), final(self).rest(), r, spec_unpack_i64(old(self).rest())),
    {
        unpack_i64(&mut self.inner)
    }

    pub fn unpack_f32(&mut self) -> (r: Result<u32, UnpackError>)
        ensures
            decoded(old(self).rest(), final(self).rest(), r, spec_unpack_f32(old(self).rest())),
    {
        unpack_f32(&mut self.inner)
    }

    pub fn unpack_f64(&mut self) -> (r: Result<u64, UnpackError>)
        ensures
            decoded(old(self).rest(), final(self).rest(), r, spec_unpack_f64(old(self).rest())),
    {
        unpack_f64(&mut self.inner)
    }

    pub fn unpack_bool(&mut self) -> (r: Result<bool, UnpackError>)
        ensures
            decoded(old(self).rest(), final(self).rest(), r, spec_unpack_bool(old(self).rest())),
    {
        unpack_bool(&mut self.inner)
    }

    pub fn unpack_str_header(&mut self) -> (r: Result<usize, UnpackError>)
        ensures
            decoded(old(self).rest(), final(self).rest(), r, spec_unpack_str_header(old(self).rest())),
    {
        unpack_str_header(&mut self.inner)
    }

    pub fn unpack_ary_header(&mut self) -> (r: Result<usize, UnpackError>)
        ensures
            decoded(old(self).rest(), final(self).rest(), r, spec_unpack_array_header(old(self).rest())),
    {
        unpack_array_header(&mut self.inner)
    }

    pub fn unpack_array_header(&mut self) -> (r: Result<usize, UnpackError>)
        ensures
            decoded(old(self).rest(), final(self).rest(), r, spec_unpack_array_header(old(self).rest())),
    {
        unpack_array_header(&mut self.inner)
    }

    pub fn unpack_map_header(&mut self) -> (r: Result<usize, UnpackError>)
        ensures
            decoded(old(self).rest(), final(self).rest(), r, spec_unpack_map_header(old(self).rest())),
    {
        unpack_map_header(&mut self.inner)
    }

    pub fn unpack_bin_header(&mut self) -> (r: Result<usize, UnpackError>)
        ensures
            decoded(old(self).rest(), final(self).rest(), r, spec_unpack_bin_header(old(self).rest())),
    {
        unpack_bin_header(&mut self.inner)
    }

    pub fn unpack_fixext1(&mut self) -> (r: Result<(i8, u8), UnpackError>)
        ensures
            decoded(old(self).rest(), final(self).rest(), r, spec_unpack_fixext1(old(self).rest())),
    {
        unpack_fixext1(&mut self.inner)
    }

    pub fn unpack_fixext2(&mut self) -> (r: Result<(i8, [u8; 2]), UnpackError>)
        ensures
            decoded(old(self).rest(), final(self).rest(), view_fixext(r),
                spec_unpack_fixext(old(self).rest(), FIXEXT2, 2, "fixext2 header")),
    {
        unpack_fixext2(&mut self.inner)
    }

    pub fn unpack_fixext4(&mut self) -> (r: Result<(i8, [u8; 4]), UnpackError>)
        ensures
            decoded(old(self).rest(), final(self).rest(), view_fixext(r),
                spec_unpack_fixext(old(self).rest(), FIXEXT4, 4, "fixext4 header")),
    {
        unpack_fixext4(&mut self.inner)
    }

    pub fn unpack_fixext8(&mut self) -> (r: Result<(i8, [u8; 8]), UnpackError>)
        ensures
            decoded(old(self).rest(), final(self).rest(), view_fixext(r),
                spec_unpack_fixext(old(self).rest(), FIXEXT8, 8, "fixext8 header")),
    {
        unpack_fixext8(&mut self.inner)
    }

    pub fn unpack_fixext16(&mut self) -> (r: Result<(i8, [u8; 16]), UnpackError>)
        ensures
            decoded(old(self).rest(), final(self).rest(), view_fixext(r),
                spec_unpack_fixext(old(self).rest(), FIXEXT16, 16, "fixext16 header")),
    {
        unpack_fixext16(&mut self.inner)
    }

    pub fn unpack_nil<T>(&mut self) -> (r: Result<Option<T>, UnpackError>)
        ensures
            decoded(old(self).rest(), final(self).rest(), r, spec_unpack_nil::<T>(old(self).rest())),
    {
        unpack_nil(&mut self.inner)
    }

    /// A string as owned text; bytes that are not UTF-8 are an error.
    pub fn unpack_string(&mut self) -> (r: Result<String, UnpackError>)
        ensures
            ({
                let d = text_read(old(self).rest());
                &&& d.0 matches Ok(t) ==> (r matches Ok(x) && x@ == t)
                &&& d.0 matches Err(e) ==> r == Err::<String, UnpackError>(e)
                &&& advanced(old(self).rest(), final(self).rest(), d.1)
            }),
    {
        unpack_str(&mut self.inner)
    }

    /// A string as text borrowed from the backing slice.
    pub fn unpack_string_ref(&mut self) -> (r: Result<&'a str, UnpackError>)
        ensures
            ({
                let d = text_read(old(self).rest());
                &&& d.0 matches Ok(t) ==> (r matches Ok(x) && x@ == t)
                &&& d.0 matches Err(e) ==> r == Err::<&'a str, UnpackError>(e)
                &&& advanced(old(self).rest(), final(self).rest(), d.1)
            }),
    {
        unpack_str_ref(&mut self.inner)
    }

    /// A binary borrowed from the backing slice.
    pub fn unpack_bin_ref(&mut self) -> (r: Result<&'a [u8], UnpackError>)
        ensures
            decoded(old(self).rest(), final(self).rest(), view_ref(r),
                with_payload(old(self).rest(), spec_unpack_bin_header(old(self).rest()))),
    {
        unpack_bin(&mut self.inner)
    }

    pub fn unpack_value(&mut self) -> (r: Result<Value, UnpackError>)
        ensures
            value_read(old(self).rest(), final(self).rest(), r),
    {
        unpack_value(&mut self.inner)
    }

    pub fn unpack_ref_value(&mut self) -> (r: Result<RefValue<'a>, UnpackError>)
        ensures
            ref_value_read(old(self).rest(), final(self).rest(), r),
    {
        unpack_value_ref(&mut self.inner)
    }
}

/// The buffer a feed-mode unpacker owns.
#[derive(Debug)]
pub struct InnerBuf {
    buf: BytesMut,
}

impl InnerBuf {
    pub closed spec fn contents(&self) -> Seq<u8> {
        bytes_mut_contents(self.buf)
    }

    pub fn new() -> (r: Self)
        ensures
            r.contents() == Seq::<u8>::empty(),
    {
        InnerBuf { buf: buf_new() }
    }

    /// The bytes written and not yet decoded.
    pub fn as_slice(&self) -> (r: &[u8])
        ensures
            r@ == self.contents(),
    {
        buf_bytes(&self.buf)
    }
}

impl Unpacker<InnerBuf> {
    /// The bytes written and not yet decoded.
    pub closed spec fn pending(&self) -> Seq<u8> {
        self.inner.contents()
    }

    /// A feed-mode unpacker with nothing written yet.
    pub fn new() -> (r: Self)
        ensures
            r.pending() == Seq::<u8>::empty(),
    {
        Unpacker { inner: InnerBuf::new() }
    }

    /// Appends bytes to decode later; takes them all.
    pub fn write(&mut self, buf: &[u8]) -> (r: Result<usize, UnpackError>)
        ensures
            r == Ok::<usize, UnpackError>(buf@.len() as usize),
            final(self).pending() == old(self).pending() + buf@,
    {
        buf_extend(&mut self.inner.buf, buf);
        Ok(buf.len())
    }

    /// Decodes the value at the front of what was written. On success the
    /// value's bytes are dropped from the buffer; on failure, an incomplete
    /// value included, nothing is dropped, so that writing the rest of the
    /// value and asking again gives it.
    pub fn unpack_value(&mut self) -> (r: Result<Value, UnpackError>)
        ensures
            parse_value(old(self).pending()) matches Some((m, n)) ==> (r matches Ok(v) && v@ == m)
                && final(self).pending() == old(self).pending().subrange(n, old(self).pending().len() as int),
            parse_value(old(self).pending()) is None ==> r is Err && final(self).pending() == old(self).pending(),
            old(self).pending().len() == 0 ==> r == Err::<Value, UnpackError>(eof()),
            r matches Err(e) ==> tree_error(old(self).pending(), e),
            r matches Ok(v) ==> strings_wf(v),
    {
        let data = buf_bytes(&self.inner.buf);
        let mut rd: &[u8] = data;
        let r = unpack_value(&mut rd);
        match r {
            Ok(v) => {
                let used = data.len() - rd.len();
                buf_advance(&mut self.inner.buf, used);
                Ok(v)
            },
            Err(e) => Err(e),
        }
    }
}

/// In feed mode the typed reads take from the front of what was written,
/// as a pull-mode reader would: what a read consumes, failed reads included,
/// is dropped from the buffer.
impl Unpacker<InnerBuf> {
    pub fn unpack_u8(&mut self) -> (r: Result<u8, UnpackError>)
        ensures
            decoded(old(self).pending(), final(self).pending(), r, spec_unpack_u8(old(self).pending())),
    {
        let data = buf_bytes(&self.inner.buf);
        let mut rd: &[u8] = data;
        let r = unpack_u8(&mut rd);
        let used = data.len() - rd.len();
        buf_advance(&mut self.inner.buf, used);
        r
    }

    pub fn unpack_u16(&mut self) -> (r: Result<u16, UnpackError>)
        ensures
            decoded(old(self).pending(), final(self).pending(), r, spec_unpack_u16(old(self).pending())),
    {
        let data = buf_bytes(&self.inner.buf);
        let mut rd: &[u8] = data;
        let r = unpack_u16(&mut rd);
        let used = data.len() - rd.len();
        buf_advance(&mut self.inner.buf, used);
        r
    }

    pub fn unpack_u32(&mut self) -> (r: Result<u32, UnpackError>)
        ensures
            decoded(old(self).pending(), final(self).pending(), r, spec_unpack_u32(old(self).pending())),
    {
        let data = buf_bytes(&self.inner.buf);
        let mut rd: &[u8] = data;
        let r = unpack_u32(&mut rd);
        let used = data.len() - rd.len();
        buf_advance(&mut self.inner.buf, used);
        r
    }

    pub fn unpack_u64(&mut self) -> (r: Result<u64, UnpackError>)
        ensures
            decoded(old(self).pending(), final(self).pending(), r, spec_unpack_u64(old(self).pending())),
    {
        let data = buf_bytes(&self.inner.buf);
        let mut rd: &[u8] = data;
        let r = unpack_u64(&mut rd);
        let used = data.len() - rd.len();
        buf_advance(&mut self.inner.buf, used);
        r
    }

    pub fn unpack_i8(&mut self) -> (r: Result<i8, UnpackError>)
        ensures
            decoded(old(self).pending(), final(self).pending(), r, spec_unpack_i8(old(self).pending())),
    {
        let data = buf_bytes(&self.inner.buf);
        let mut rd: &[u8] = data;
        let r = unpack_i8(&mut rd);
        let used = data.len() - rd.len();
        buf_advance(&mut self.inner.buf, used);
        r
    }

    pub fn unpack_i16(&mut self) -> (r: Result<i16, UnpackError>)
        ensures
            decoded(old(self).pending(), final(self).pending(), r, spec_unpack_i16(old(self).pending())),
    {
        let data = buf_bytes(&self.inner.buf);
        let mut rd: &[u8] = data;
        let r = unpack_i16(&mut rd);
        let used = data.len() - rd.len();
        buf_advance(&mut self.inner.buf, used);
        r
    }

    pub fn unpack_i32(&mut self) -> (r: Result<i32, UnpackError>)
        ensures
            decoded(old(self).pending(), final(self).pending(), r, spec_unpack_i32(old(self).pending())),
    {
        let data = buf_bytes(&self.inner.buf);
        let mut rd: &[u8] = data;
        let r = unpack_i32(&mut rd);
        let used = data.len() - rd.len();
        buf_advance(&mut self.inner.buf, used);
        r
    }

    pub fn unpack_i64(&mut self) -> (r: Result<i64, UnpackError>)
        ensures
            decoded(old(self).pending(), final(self).pending(), r, spec_unpack_i64(old(self).pending())),
    {
        let data = buf_bytes(&self.inner.buf);
        let mut rd: &[u8] = data;
        let r = unpack_i64(&mut rd);
        let used = data.len() - rd.len();
        buf_advance(&mut self.inner.buf, used);
        r
    }

    pub fn unpack_f32(&mut self) -> (r: Result<u32, UnpackError>)
        ensures
            decoded(old(self).pending(), final(self).pending(), r, spec_unpack_f32(old(self).pending())),
    {
        let data = buf_bytes(&self.inner.buf);
        let mut rd: &[u8] = data;
        let r = unpack_f32(&mut rd);
        let used = data.len() - rd.len();
        buf_advance(&mut self.inner.buf, used);
        r
    }

    pub fn unpack_f64(&mut self) -> (r: Result<u64, UnpackError>)
        ensures
            decoded(old(self).pending(), final(self).pending(), r, spec_unpack_f64(old(self).pending())),
    {
        let data = buf_bytes(&self.inner.buf);
        let mut rd: &[u8] = data;
        let r = unpack_f64(&mut rd);
        let used = data.len() - rd.len();
        buf_advance(&mut self.inner.buf, used);
        r
    }

    pub fn unpack_bool(&mut self) -> (r: Result<bool, UnpackError>)
        ensures
            decoded(old(self).pending(), final(self).pending(), r, spec_unpack_bool(old(self).pending())),
    {
        let data = buf_bytes(&self.inner.buf);
        let mut rd: &[u8] = data;
        let r = unpack_bool(&mut rd);
        let used = data.len() - rd.len();
        buf_advance(&mut self.inner.buf, used);
        r
    }

    pub fn unpack_str_header(&mut self) -> (r: Result<usize, UnpackError>)
        ensures
            decoded(old(self).pending(), final(self).pending(), r, spec_unpack_str_header(old(self).pending())),
    {
        let data = buf_bytes(&self.inner.buf);
        let mut rd: &[u8] = data;
        let r = unpack_str_header(&mut rd);
        let used = data.len() - rd.len();
        buf_advance(&mut self.inner.buf, used);
        r
    }

    pub fn unpack_ary_header(&mut self) -> (r: Result<usize, UnpackError>)
        ensures
            decoded(old(self).pending(), final(self).pending(), r, spec_unpack_array_header(old(self).pending())),
    {
        let data = buf_bytes(&self.inner.buf);
        let mut rd: &[u8] = data;
        let r = unpack_array_header(&mut rd);
        let used = data.len() - rd.len();
        buf_advance(&mut self.inner.buf, used);
        r
    }

    pub fn unpack_array_header(&mut self) -> (r: Result<usize, UnpackError>)
        ensures
            decoded(old(self).pending(), final(self).pending(), r, spec_unpack_array_header(old(self).pending())),
    {
        let data = buf_bytes(&self.inner.buf);
        let mut rd: &[u8] = data;
        let r = unpack_array_header(&mut rd);
        let used = data.len() - rd.len();
        buf_advance(&mut self.inner.buf, used);
        r
    }

    pub fn unpack_map_header(&mut self) -> (r: Result<usize, UnpackError>)
        ensures
            decoded(old(self).pending(), final(self).pending(), r, spec_unpack_map_header(old(self).pending())),
    {
        let data = buf_bytes(&self.inner.buf);
        let mut rd: &[u8] = data;
        let r = unpack_map_header(&mut rd);
        let used = data.len() - rd.len();
        buf_advance(&mut self.inner.buf, used);
        r
    }

    pub fn unpack_bin_header(&mut self) -> (r: Result<usize, UnpackError>)
        ensures
            decoded(old(self).pending(), final(self).pending(), r, spec_unpack_bin_header(old(self).pending())),
    {
        let data = buf_bytes(&self.inner.buf);
        let mut rd: &[u8] = data;
        let r = unpack_bin_header(&mut rd);
        let used = data.len() - rd.len();
        buf_advance(&mut self.inner.buf, used);
        r
    }

    pub fn unpack_fixext1(&mut self) -> (r: Result<(i8, u8), UnpackError>)
        ensures
            decoded(old(self).pending(), final(self).pending(), r, spec_unpack_fixext1(old(self).pending())),
    {
        let data = buf_bytes(&self.inner.buf);
        let mut rd: &[u8] = data;
        let r = unpack_fixext1(&mut rd);
        let used = data.len() - rd.len();
        buf_advance(&mut self.inner.buf, used);
        r
    }

    pub fn unpack_fixext2(&mut self) -> (r: Result<(i8, [u8; 2]), UnpackError>)
        ensures
            decoded(old(self).pending(), final(self).pending(), view_fixext(r),
                spec_unpack_fixext(old(self).pending(), FIXEXT2, 2, "fixext2 header")),
    {
        let data = buf_bytes(&self.inner.buf);
        let mut rd: &[u8] = data;
        let r = unpack_fixext2(&mut rd);
        let used = data.len() - rd.len();
        buf_advance(&mut self.inner.buf, used);
        r
    }

    pub fn unpack_fixext4(&mut self) -> (r: Result<(i8, [u8; 4]), UnpackError>)
        ensures
            decoded(old(self).pending(), final(self).pending(), view_fixext(r),
                spec_unpack_fixext(old(self).pending(), FIXEXT4, 4, "fixext4 header")),
    {
        let data = buf_bytes(&self.inner.buf);
        let mut rd: &[u8] = data;
        let r = unpack_fixext4(&mut rd);
        let used = data.len() - rd.len();
        buf_advance(&mut self.inner.buf, used);
        r
    }

    pub fn unpack_fixext8(&mut self) -> (r: Result<(i8, [u8; 8]), UnpackError>)
        ensures
            decoded(old(self).pending(), final(self).pending(), view_fixext(r),
                spec_unpack_fixext(old(self).pending(), FIXEXT8, 8, "fixext8 header")),
    {
        let data = buf_bytes(&self.inner.buf);
        let mut rd: &[u8] = data;
        let r = unpack_fixext8(&mut rd);
        let used = data.len() - rd.len();
        buf_advance(&mut self.inner.buf, used);
        r
    }

    pub fn unpack_fixext16(&mut self) -> (r: Result<(i8, [u8; 16]), UnpackError>)
        ensures
            decoded(old(self).pending(), final(self).pending(), view_fixext(r),
                spec_unpack_fixext(old(self).pending(), FIXEXT16, 16, "fixext16 header")),
    {
        let data = buf_bytes(&self.inner.buf);
        let mut rd: &[u8] = data;
        let r = unpack_fixext16(&mut rd);
        let used = data.len() - rd.len();
        buf_advance(&mut self.inner.buf, used);
        r
    }

    pub fn unpack_nil<T>(&mut self) -> (r: Result<Option<T>, UnpackError>)
        ensures
            decoded(old(self).pending(), final(self).pending(), r, spec_unpack_nil::<T>(old(self).pending())),
    {
        let data = buf_bytes(&self.inner.buf);
        let mut rd: &[u8] = data;
        let r = unpack_nil(&mut rd);
        let used = data.len() - rd.len();
        buf_advance(&mut self.inner.buf, used);
        r
    }

    /// A string as owned text; bytes that are not UTF-8 are an error.
    pub fn unpack_string(&mut self) -> (r: Result<String, UnpackError>)
        ensures
            ({
                let d = text_read(old(self).pending());
                &&& d.0 matches Ok(t) ==> (r matches Ok(x) && x@ == t)
                &&& d.0 matches Err(e) ==> r == Err::<String, UnpackError>(e)
                &&& advanced(old(self).pending(), final(self).pending(), d.1)
            }),
    {
        let data = buf_bytes(&self.inner.buf);
        let mut rd: &[u8] = data;
        let r = unpack_str(&mut rd);
        let used = data.len() - rd.len();
        buf_advance(&mut self.inner.buf, used);
        r
    }
}

} // verus!
