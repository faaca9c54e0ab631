use vstd::prelude::*;

verus! {

/// Decodes one chunk read from the socket as UTF-8 text.
///
/// Relies on `core::str::from_utf8`: it returns `Ok` exactly on the byte
/// sequences that are valid UTF-8, and the text it yields is their decoding.
#[verifier::external_body]
pub(crate) fn utf8_to_string(bytes: &[u8]) -> (r: Option<String>)
    ensures
        r is Some <==> vstd::utf8::valid_utf8(bytes@),
        r matches Some(s) ==> s@ == vstd::utf8::decode_utf8(bytes@),
{
    match core::str::from_utf8(bytes) {
        Ok(s) => Some(s.to_owned()),
        Err(_) => None,
    }
}

/// The fixed acknowledgment line the writer sends to the peer, one per
/// message that reaches it.
pub fn ack_line() -> (s: String)
    ensures
        s@ == "message received\n"@,
{
    "message received\n".to_owned()
}

} // verus!
