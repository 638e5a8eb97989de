//! The associated-icon path: an OS facility renders an executable's
//! associated icon and prints it in base64; the library decodes that
//! payload into icon bytes.

use vstd::prelude::*;

use base64::Engine;

verus! {

/// Whether a character sequence is valid standard base64, and the bytes it
/// decodes to; a function of the characters alone.
pub uninterp spec fn base64_decode_of(s: Seq<char>) -> Option<Seq<u8>>;

/// Relies on the decode of base64's STANDARD engine: whether an input
/// decodes, and to what, depends on its characters alone.
#[verifier::external_body]
fn b64_decode(s: &str) -> (r: Option<Vec<u8>>)
    ensures
        r is Some <==> base64_decode_of(s@) is Some,
        r matches Some(v) ==> base64_decode_of(s@) == Some(v@),
{
    match base64::engine::general_purpose::STANDARD.decode(s) {
        Ok(v) => Some(v),
        Err(_) => None,
    }
}

/// Decode the base64 payload an OS icon renderer printed, yielding the
/// rendered icon's bytes; `None` exactly when the payload is not valid
/// base64.
pub fn decode_rendered_icon(payload: &str) -> (res: Option<Vec<u8>>)
    ensures
        res is Some <==> base64_decode_of(payload@) is Some,
        res matches Some(v) ==> base64_decode_of(payload@) == Some(v@),
{
    b64_decode(payload)
}

} // verus!
