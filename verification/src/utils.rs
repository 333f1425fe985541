//! Small helpers shared across the components: the URL-safe base64 codec
//! used for persisted storage keys, and the wall clock.

use vstd::prelude::*;

use base64::engine::general_purpose;
use base64::Engine;

use openmls::prelude::Credential;

verus! {

/// The URL-safe base64 text of a byte sequence.
pub uninterp spec fn b64_of(bytes: Seq<u8>) -> Seq<char>;

/// What URL-safe base64 decoding makes of a text: the bytes it denotes, or
/// nothing when the text is not valid base64.
pub uninterp spec fn b64_decoded(text: Seq<char>) -> Option<Seq<u8>>;

/// Byte blobs to and from URL-safe base64 text, one alphabet throughout.
pub struct BufferConverter;

impl BufferConverter {
    /// Encode bytes as URL-safe base64 with padding. Decoding the result
    /// yields the input again. Relies on `base64`'s
    /// `general_purpose::URL_SAFE` engine's `encode`.
    #[verifier::external_body]
    pub fn to_base64(buffer: &Vec<u8>) -> (r: String)
        ensures
            r@ == b64_of(buffer@),
            b64_decoded(r@) == Some(buffer@),
    {
        general_purpose::URL_SAFE.encode(buffer)
    }

    /// Decode URL-safe base64 text; refused when the text is not valid
    /// base64 in that alphabet. Relies on `base64`'s
    /// `general_purpose::URL_SAFE` engine's `decode`.
    #[verifier::external_body]
    pub fn from_base64(base64: &String) -> (r: Option<Vec<u8>>)
        ensures
            match r {
                Some(v) => b64_decoded(base64@) == Some(v@),
                None => b64_decoded(base64@) is None,
            },
    {
        general_purpose::URL_SAFE.decode(base64.as_str()).ok()
    }
}

/// The text a byte sequence denotes in UTF-8, or nothing when the bytes
/// are not valid UTF-8.
pub uninterp spec fn utf8_decoded(bytes: Seq<u8>) -> Option<Seq<char>>;

/// Decode bytes as UTF-8 text; refused when the bytes are not valid UTF-8.
/// Relies on `String::from_utf8`.
#[verifier::external_body]
pub fn utf8_to_string(bytes: Vec<u8>) -> (r: Option<String>)
    ensures
        match r {
            Some(s) => utf8_decoded(bytes@) == Some(s@),
            None => utf8_decoded(bytes@) is None,
        },
{
    String::from_utf8(bytes).ok()
}

/// The identity a credential carries, read as text: for the basic
/// credentials this system uses, the payload is the owner's identity
/// string. Refused when the payload is not valid UTF-8.
pub fn extract_sender_id_from_credential(credential: &Credential) -> (r: Result<
    String,
    crate::types::ConvoError,
>)
    ensures
        r matches Err(e) ==> e == crate::types::ConvoError::MessageMalformed,
{
    let payload = crate::mls::credential_payload(credential);
    match utf8_to_string(payload) {
        Some(id) => Ok(id),
        None => Err(crate::types::ConvoError::MessageMalformed),
    }
}

/// Seconds since the Unix epoch, by the system clock; a clock before the
/// epoch reads as zero. Relies on `std::time::SystemTime::now`.
#[verifier::external_body]
pub fn current_timestamp() -> u64 {
    match std::time::SystemTime::now().duration_since(std::time::UNIX_EPOCH) {
        Ok(d) => d.as_secs(),
        Err(_) => 0,
    }
}

} // verus!
