//! Base64, as the `base64` crate reads and writes it.

use vstd::prelude::*;

verus! {

/// `base64::DecodeError`, the reason why a text is no base64. Nothing is
/// known of what is inside.
#[verifier::external_type_specification]
#[verifier::external_body]
pub struct ExDecodeError(base64::DecodeError);

/// The bytes that `text` stands for in standard base64 with padding, as the
/// `base64` crate decodes it; `None` where it rejects the text.
pub uninterp spec fn base64_decoded(text: Seq<char>) -> Option<Seq<u8>>;

/// The bytes that `text` stands for in URL-safe base64 without padding, as
/// the `base64` crate decodes it; `None` where it rejects the text.
pub uninterp spec fn base64url_decoded(text: Seq<char>) -> Option<Seq<u8>>;

/// `data` in URL-safe base64 without padding, as the `base64` crate encodes
/// it.
pub uninterp spec fn base64url_encoded(data: Seq<u8>) -> Seq<char>;

/// The longest input that is handed to the encoder.
pub const ENCODE_MAX: usize = 0x1000_0000;

/// Decodes standard base64.
///
/// Trusted: calls `base64::decode`. The contract names the bytes on success
/// and says that the name has none where the crate reports an error.
#[verifier::external_body]
pub(crate) fn decode_standard(text: &str) -> (r: Result<Vec<u8>, base64::DecodeError>)
    ensures
        match r {
            Ok(bytes) => base64_decoded(text@) == Some(bytes@),
            Err(_) => base64_decoded(text@) is None,
        },
{
    base64::decode(text)
}

/// Decodes URL-safe base64 without padding.
///
/// Trusted: calls `base64::decode_config` with `base64::URL_SAFE_NO_PAD`. The
/// contract names the bytes on success and says that the name has none where
/// the crate reports an error.
#[verifier::external_body]
pub(crate) fn decode_url(text: &str) -> (r: Result<Vec<u8>, base64::DecodeError>)
    ensures
        match r {
            Ok(bytes) => base64url_decoded(text@) == Some(bytes@),
            Err(_) => base64url_decoded(text@) is None,
        },
{
    base64::decode_config(text, base64::URL_SAFE_NO_PAD)
}

/// Encodes bytes as URL-safe base64 without padding.
///
/// Trusted: calls `base64::encode_config` with `base64::URL_SAFE_NO_PAD`. The
/// contract names the text and claims that `base64::decode_config` with the
/// same configuration gives the bytes back. The bound keeps the input away
/// from sizes at which the crate's length computation overflows.
#[verifier::external_body]
pub(crate) fn encode_url(data: &[u8]) -> (text: String)
    requires
        data@.len() <= ENCODE_MAX,
    ensures
        text@ == base64url_encoded(data@),
        base64url_decoded(text@) == Some(data@),
{
    base64::encode_config(data, base64::URL_SAFE_NO_PAD)
}

/// Decodes standard base64; nothing where the text is not base64.
pub fn decode(text: &str) -> (r: Option<Vec<u8>>)
    ensures
        match r {
            Some(bytes) => base64_decoded(text@) == Some(bytes@),
            None => base64_decoded(text@) is None,
        },
{
    match decode_standard(text) {
        Ok(bytes) => Some(bytes),
        Err(_) => None,
    }
}

} // verus!
