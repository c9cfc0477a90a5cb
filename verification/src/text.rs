//! UTF-8 decoding of byte ranges: file names, comments, entry payloads read
//! as text.

use vstd::prelude::*;

use crate::error::ZipError;

verus! {

/// The characters a byte sequence decodes to as UTF-8, or nothing when the
/// bytes are not valid UTF-8.
pub uninterp spec fn utf8_chars_of(bytes: Seq<u8>) -> Option<Seq<char>>;

/// Relies on String::from_utf8: returns the string whose bytes are the input,
/// a function of the bytes alone; fails exactly when they are not valid
/// UTF-8. An empty byte sequence decodes to the empty string.
#[verifier::external_body]
pub(crate) fn string_from_utf8(bytes: Vec<u8>) -> (r: Result<String, ZipError>)
    ensures
        r matches Ok(s) ==> utf8_chars_of(bytes@) == Some(s@),
        r matches Err(e) ==> e == ZipError::StringNotUtf8,
        utf8_chars_of(bytes@) is Some ==> r is Ok,
        utf8_chars_of(bytes@) is None ==> r is Err,
        bytes@.len() == 0 ==> r is Ok,
        r matches Ok(s) ==> (bytes@.len() == 0 ==> s@ == Seq::<char>::empty()),
{
    match String::from_utf8(bytes) {
        Ok(s) => Ok(s),
        Err(_) => Err(ZipError::StringNotUtf8),
    }
}

} // verus!
