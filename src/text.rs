//! UTF-8 validation, as std performs it. The contracts say what std's
//! documentation promises: a conversion succeeds exactly on valid UTF-8, and
//! the text it gives encodes back to the same bytes.
use vstd::prelude::*;
use vstd::utf8::{decode_utf8, valid_utf8};

verus! {

/// std's description of why bytes are not UTF-8, carried through unread.
#[verifier::external_type_specification]
#[verifier::external_body]
pub struct ExUtf8Error(std::str::Utf8Error);

/// Relies on `std::str::from_utf8`: it returns the bytes as a `&str` exactly
/// when they are valid UTF-8, and an error otherwise.
#[verifier::external_body]
pub(crate) fn str_from_utf8<'a>(b: &'a [u8]) -> (r: Result<&'a str, std::str::Utf8Error>)
    ensures
        r is Ok <==> valid_utf8(b@),
        r matches Ok(s) ==> s@ == decode_utf8(b@),
{
    std::str::from_utf8(b)
}

/// Relies on `String::from_utf8`: it takes the vector as a `String` exactly
/// when its bytes are valid UTF-8; otherwise `FromUtf8Error` hands back the
/// same bytes and the `Utf8Error`.
#[verifier::external_body]
pub(crate) fn string_from_utf8(v: Vec<u8>) -> (r: Result<String, (Vec<u8>, std::str::Utf8Error)>)
    ensures
        r is Ok <==> valid_utf8(v@),
        r matches Ok(s) ==> s@ == decode_utf8(v@),
        r matches Err((b, _)) ==> b@ == v@,
{
    match String::from_utf8(v) {
        Ok(s) => Ok(s),
        Err(e) => {
            let u = e.utf8_error();
            Err((e.into_bytes(), u))
        },
    }
}

} // verus!
