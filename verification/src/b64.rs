//! Standard base64, as the `base64` crate writes and reads it.

use base64::Engine;
use vstd::prelude::*;

verus! {

/// The error of the `base64` crate's decoder.
#[verifier::external_type_specification]
#[verifier::external_body]
pub struct ExDecodeError(base64::DecodeError);

/// The standard base64 text of `data`, with padding: what
/// `base64::engine::general_purpose::STANDARD.encode` returns for it.
pub uninterp spec fn base64_text(data: Seq<u8>) -> Seq<char>;

/// The bytes that the standard base64 text `text` stands for, or `None`
/// where `base64::engine::general_purpose::STANDARD.decode` refuses it.
pub uninterp spec fn base64_bytes(text: Seq<char>) -> Option<Seq<u8>>;

/// Whether the base64 text of `len` bytes has a length that fits a `usize`.
pub open spec fn encodable_len(len: nat) -> bool {
    len / 3 * 4 + 4 <= usize::MAX
}

/// Calls `base64::engine::general_purpose::STANDARD.encode`.
///
/// Trusted: the text that comes back is the base64 text of `data`, which
/// depends on `data` alone. The call panics where the length of that text
/// overflows a `usize`, which `encodable_len` rules out.
#[verifier::external_body]
pub(crate) fn encode(data: &Vec<u8>) -> (text: String)
    requires
        encodable_len(data@.len()),
    ensures
        text@ == base64_text(data@),
{
    base64::engine::general_purpose::STANDARD.encode(data)
}

/// Calls `base64::engine::general_purpose::STANDARD.decode`.
///
/// Trusted: whether the call succeeds, and with which bytes, depends on
/// `text` alone.
#[verifier::external_body]
pub(crate) fn decode(text: &str) -> (r: Result<Vec<u8>, base64::DecodeError>)
    ensures
        match r {
            Ok(bytes) => base64_bytes(text@) == Some(bytes@),
            Err(_) => base64_bytes(text@) is None,
        },
{
    base64::engine::general_purpose::STANDARD.decode(text)
}

} // verus!
