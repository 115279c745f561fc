//! Base64 decoding, done by the `base64` crate.

use vstd::prelude::*;

verus! {

/// The error type of the `base64` crate's decoder.
#[verifier::external_type_specification]
#[verifier::external_body]
pub struct ExDecodeError(base64::DecodeError);

/// What `base64::decode` makes of `encoded` with the standard alphabet and
/// padding: the decoded bytes, or `None` where it reports an error.
pub uninterp spec fn base64_decoding(encoded: Seq<u8>) -> Option<Seq<u8>>;

/// Calls `base64::decode`. The decoder's answer depends on the input bytes
/// alone; the contract gives that answer the name [`base64_decoding`].
#[verifier::external_body]
pub(crate) fn base64_decode(encoded: &[u8]) -> (decoded: Result<Vec<u8>, base64::DecodeError>)
    ensures
        match decoded {
            Ok(bytes) => base64_decoding(encoded@) == Some(bytes@),
            Err(_) => base64_decoding(encoded@).is_none(),
        },
{
    base64::decode(encoded)
}

} // verus!
