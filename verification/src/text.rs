//! Conversion of raw byte strings into validated text.
//!
//! Each element of a raw argument vector is a byte string; before it can
//! serve as a command name or argument it must be valid text in the
//! system's expected encoding (UTF-8). The decoded text is a function of
//! the bytes alone, named here by `utf8_decode`.

use vstd::prelude::*;

verus! {

/// The text that a byte sequence decodes to under UTF-8, or `None` when
/// the bytes are not valid UTF-8.
pub uninterp spec fn utf8_decode(bytes: Seq<u8>) -> Option<Seq<char>>;

/// Relies on `String::from_utf8` (std): whether a byte sequence is valid
/// UTF-8, and the text it decodes to, depend on the bytes alone.
#[verifier::external_body]
pub(crate) fn bytes_to_text(bytes: &Vec<u8>) -> (r: Option<String>)
    ensures
        r is Some <==> utf8_decode(bytes@) is Some,
        r matches Some(s) ==> utf8_decode(bytes@) == Some(s@),
{
    String::from_utf8(bytes.clone()).ok()
}

} // verus!
