//! Base64 texts, read and written by the `base64` crate.
use base64::engine::general_purpose::STANDARD;
use base64::Engine;
use vstd::prelude::*;

verus! {

/// What the standard base64 engine reads from a text: the bytes, or its error
/// message.
pub uninterp spec fn decoded(text: Seq<char>) -> Result<Seq<u8>, Seq<char>>;

/// The text that the standard base64 engine writes for bytes.
pub uninterp spec fn encoded(bytes: Seq<u8>) -> Seq<char>;

/// `Engine::decode` of `STANDARD`: the bytes that a base64 text stands for,
/// or the message of the error. The result depends on the text alone.
#[verifier::external_body]
pub(crate) fn decode(text: &str) -> (r: Result<Vec<u8>, String>)
    ensures
        match r {
            Ok(bytes) => decoded(text@) == Ok::<Seq<u8>, Seq<char>>(bytes@),
            Err(e) => decoded(text@) == Err::<Seq<u8>, Seq<char>>(e@),
        },
{
    STANDARD.decode(text).map_err(|e| e.to_string())
}

/// `Engine::encode` of `STANDARD`: the base64 text of bytes, from which the
/// same engine reads those bytes back. The size of the text cannot overflow,
/// as a vector holds at most `isize::MAX` bytes.
#[verifier::external_body]
pub(crate) fn encode(bytes: &Vec<u8>) -> (r: String)
    ensures
        r@ == encoded(bytes@),
        decoded(r@) is Ok,
        decoded(r@)->Ok_0 == bytes@,
{
    STANDARD.encode(bytes)
}

} // verus!
