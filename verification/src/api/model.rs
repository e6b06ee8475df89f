//! Request and response bodies of the update gateway.

use base64::DecodeError;
use vstd::prelude::*;

verus! {

/// The error type of base64 decoding.
#[verifier::external_type_specification]
#[verifier::external_body]
pub struct ExDecodeError(DecodeError);

/// Number of bytes in a decoded DNS-01 challenge response (a SHA-256 digest).
pub const DNS01_DECODED_LEN_BYTES: usize = 32;

/// The bytes that `text` decodes to as unpadded base64 in the URL-safe
/// alphabet, or `None` where `text` is not such an encoding.
pub uninterp spec fn url_safe_no_pad_decoding(text: Seq<char>) -> Option<Seq<u8>>;

/// Body of an update request.
#[derive(Debug)]
pub struct UpdateRecordRequest {
    pub subdomain: String,
    pub txt: String,
}

/// Body of the response to a successful update.
#[derive(Debug)]
pub struct UpdateRecordResult {
    pub txt: String,
}

/// Why a TXT value is not a DNS-01 challenge response.
#[derive(Debug)]
pub enum TxtValidationError {
    InvalidEncoding(DecodeError),
    InvalidDecodedLength { actual: usize, expected: usize },
}

/// What `check_decoded_len` returns for a decoding attempt.
pub open spec fn decoded_len_verdict(decoded: Result<Vec<u8>, DecodeError>) -> Result<
    (),
    TxtValidationError,
> {
    match decoded {
        Ok(raw) => if raw@.len() == DNS01_DECODED_LEN_BYTES {
            Ok(())
        } else {
            Err(
                TxtValidationError::InvalidDecodedLength {
                    actual: raw@.len() as usize,
                    expected: DNS01_DECODED_LEN_BYTES,
                },
            )
        },
        Err(err) => Err(TxtValidationError::InvalidEncoding(err)),
    }
}

/// `base64::Engine::decode` on the `URL_SAFE_NO_PAD` engine. The call is a
/// function of the text alone; the contract names what it yields and says
/// that it fails exactly where the text has no decoding.
#[verifier::external_body]
fn decode_url_safe_no_pad(text: &str) -> (decoded: Result<Vec<u8>, DecodeError>)
    ensures
        match decoded {
            Ok(raw) => url_safe_no_pad_decoding(text@) == Some(raw@),
            Err(_) => url_safe_no_pad_decoding(text@) is None,
        },
{
    base64::Engine::decode(&base64::engine::general_purpose::URL_SAFE_NO_PAD, text)
}

/// Judges the outcome of decoding a TXT value: the decoded bytes must be
/// exactly as long as a SHA-256 digest.
pub fn check_decoded_len(decoded: Result<Vec<u8>, DecodeError>) -> (res: Result<
    (),
    TxtValidationError,
>)
    ensures
        res == decoded_len_verdict(decoded),
{
    match decoded {
        Ok(raw) => {
            let actual: usize = raw.len();
            if actual == DNS01_DECODED_LEN_BYTES {
                Ok(())
            } else {
                Err(
                    TxtValidationError::InvalidDecodedLength {
                        actual,
                        expected: DNS01_DECODED_LEN_BYTES,
                    },
                )
            }
        },
        Err(err) => Err(TxtValidationError::InvalidEncoding(err)),
    }
}

impl UpdateRecordRequest {
    /// Whether `txt` is the unpadded URL-safe base64 encoding of exactly 32
    /// bytes.
    pub fn valid_dns01(&self) -> (res: Result<(), TxtValidationError>)
        ensures
            match url_safe_no_pad_decoding(self.txt@) {
                Some(raw) => if raw.len() == DNS01_DECODED_LEN_BYTES {
                    res is Ok
                } else {
                    res == Err::<(), TxtValidationError>(
                        TxtValidationError::InvalidDecodedLength {
                            actual: raw.len() as usize,
                            expected: DNS01_DECODED_LEN_BYTES,
                        },
                    )
                },
                None => res matches Err(TxtValidationError::InvalidEncoding(_)),
            },
    {
        check_decoded_len(decode_url_safe_no_pad(self.txt.as_str()))
    }
}

} // verus!
