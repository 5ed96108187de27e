//! Base64 in the alphabet for URLs.

use vstd::prelude::*;

verus! {

/// The bytes that a text encodes in URL-safe base64 with padding, if it does.
pub uninterp spec fn url_safe_bytes(text: Seq<char>) -> Option<Seq<u8>>;

/// `URL_SAFE.decode` of the crate `base64`: the alphabet with `-` and `_`,
/// padding demanded.
#[verifier::external_body]
pub(crate) fn decode_url_safe(text: &str) -> (r: Option<Vec<u8>>)
    ensures
        match r {
            Some(bytes) => url_safe_bytes(text@) == Some(bytes@),
            None => url_safe_bytes(text@) is None,
        },
{
    base64::Engine::decode(&base64::engine::general_purpose::URL_SAFE, text).ok()
}

/// The bytes that a text encodes in URL-safe base64 without padding, if it does.
pub uninterp spec fn url_safe_no_pad_bytes(text: Seq<char>) -> Option<Seq<u8>>;

/// `URL_SAFE_NO_PAD.decode` of the crate `base64`: the alphabet with `-` and `_`,
/// padding refused.
#[verifier::external_body]
pub(crate) fn decode_url_safe_no_pad(text: &str) -> (r: Option<Vec<u8>>)
    ensures
        match r {
            Some(bytes) => url_safe_no_pad_bytes(text@) == Some(bytes@),
            None => url_safe_no_pad_bytes(text@) is None,
        },
{
    base64::Engine::decode(&base64::engine::general_purpose::URL_SAFE_NO_PAD, text).ok()
}

} // verus!
