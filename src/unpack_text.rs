//! Strings asked for as text: bytes that are not UTF-8 are an error here.
use crate::error::{DataError, UnpackError};
use crate::read::{
    advanced, lemma_advanced_none, lemma_advanced_take, lemma_advanced_trans, BufferedRead,
};
use crate::text::{str_from_utf8, string_from_utf8};
use crate::unpack::{spec_unpack_str_header, unpack_data, unpack_data_ref, unpack_str_header, with_payload};
use vstd::prelude::*;
use vstd::utf8::{decode_utf8, valid_utf8};

verus! {

broadcast use {lemma_advanced_trans, lemma_advanced_none, lemma_advanced_take};

/// What reading a string as text gives, as a result over its characters.
pub open spec fn text_read(s: Seq<u8>) -> (Result<Seq<char>, UnpackError>, int) {
    let d = with_payload(s, spec_unpack_str_header(s));
    match d.0 {
        Ok(b) => if valid_utf8(b) {
            (Ok(decode_utf8(b)), d.1)
        } else {
            (Err(UnpackError::InvalidData(DataError::InvalidUtf8)), d.1)
        },
        Err(e) => (Err(e), d.1),
    }
}

/// A string, as owned text.
pub fn unpack_str<'a, R: BufferedRead<'a>>(reader: &mut R) -> (r: Result<String, UnpackError>)
    ensures
        ({
            let d = text_read(old(reader).remaining());
            &&& d.0 matches Ok(t) ==> (r matches Ok(x) && x@ == t)
            &&& d.0 matches Err(e) ==> r == Err::<String, UnpackError>(e)
            &&& advanced(old(reader).remaining(), final(reader).remaining(), d.1)
        }),
{
    let len = unpack_str_header(reader)?;
    let buf = unpack_data(reader, len)?;
    match string_from_utf8(buf) {
        Ok(s) => Ok(s),
        Err(_) => Err(UnpackError::InvalidData(DataError::InvalidUtf8)),
    }
}

/// A string, as text borrowed from the reader's backing slice.
pub fn unpack_str_ref<'a, R: BufferedRead<'a>>(reader: &mut R) -> (r: Result<&'a str, UnpackError>)
    ensures
        ({
            let d = text_read(old(reader).remaining());
            &&& d.0 matches Ok(t) ==> (r matches Ok(x) && x@ == t)
            &&& d.0 matches Err(e) ==> r == Err::<&'a str, UnpackError>(e)
            &&& advanced(old(reader).remaining(), final(reader).remaining(), d.1)
        }),
{
    let len = unpack_str_header(reader)?;
    let buf = unpack_data_ref(reader, len)?;
    match str_from_utf8(buf) {
        Ok(s) => Ok(s),
        Err(_) => Err(UnpackError::InvalidData(DataError::InvalidUtf8)),
    }
}

} // verus!
