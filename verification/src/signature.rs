//! Checking that a webhook's body was signed with the shared secret: the
//! `absolutesolver` header carries the hex of the body's HMAC-SHA256.
use vstd::prelude::*;
use hmac::Mac;

verus! {

/// `hex::FromHexError`, the error of a hex decoding.
#[verifier::external_type_specification]
#[verifier::external_body]
pub struct ExFromHexError(hex::FromHexError);

/// The value of a hex digit, upper or lower case.
pub open spec fn hex_digit(b: u8) -> Option<u8> {
    if 48 <= b <= 57 {
        Some((b - 48) as u8)
    } else if 97 <= b <= 102 {
        Some((b - 97 + 10) as u8)
    } else if 65 <= b <= 70 {
        Some((b - 65 + 10) as u8)
    } else {
        None
    }
}

/// The bytes that the hex text `s` writes: two digits per byte, the high
/// half first; `None` where `s` has an odd length or a byte that is no digit.
pub open spec fn hex_decoded(s: Seq<u8>) -> Option<Seq<u8>> {
    if s.len() % 2 == 0 && forall|i: int| 0 <= i < s.len() ==> (#[trigger] hex_digit(s[i])).is_some() {
        Some(
            Seq::new(
                s.len() / 2,
                |i: int| (hex_digit(s[2 * i]).unwrap() * 16 + hex_digit(s[2 * i + 1]).unwrap()) as u8,
            ),
        )
    } else {
        None
    }
}

/// The HMAC-SHA256 of `message` under `key`, as the `hmac` and `sha2`
/// crates compute it.
pub uninterp spec fn hmac_sha256(key: Seq<u8>, message: Seq<u8>) -> Seq<u8>;

/// `hex::decode`: decodes hex text, two digits of either case per byte.
/// Which `FromHexError` comes back on a bad input is left unsaid.
#[verifier::external_body]
fn hex_decode(data: &[u8]) -> (r: Result<Vec<u8>, hex::FromHexError>)
    ensures
        match r {
            Ok(bytes) => hex_decoded(data@) == Some(bytes@),
            Err(_) => hex_decoded(data@) is None,
        },
{
    hex::decode(data)
}

/// The `Mac` trait of `hmac` on `Hmac<Sha256>`, used once through:
/// `new_from_slice` with `key` (which takes a key of any length),
/// `update` with `message`, then `verify_slice` with `tag`, which accepts
/// exactly the tag of the message: of the same length and equal.
#[verifier::external_body]
fn hmac_sha256_verify(key: &[u8], message: &[u8], tag: &[u8]) -> (r: bool)
    ensures
        r == (tag@ == hmac_sha256(key@, message@)),
{
    let mut mac = <hmac::Hmac<sha2::Sha256> as Mac>::new_from_slice(key).unwrap();
    mac.update(message);
    mac.verify_slice(tag).is_ok()
}

/// Why a signature was refused.
#[derive(Debug, Clone, Copy, PartialEq, Eq, Structural)]
pub enum SignatureError {
    /// The signature is not hex text.
    InvalidHex,
    /// The signature is not the body's under the secret.
    Mismatch,
}

/// Whether `signature`, the hex of an HMAC-SHA256, signs `body` under
/// `secret`.
pub fn absolutesolver(secret: &[u8], body: &[u8], signature: &[u8]) -> (r: Result<(), SignatureError>)
    ensures
        match hex_decoded(signature@) {
            None => r == Err::<(), SignatureError>(SignatureError::InvalidHex),
            Some(tag) => if tag == hmac_sha256(secret@, body@) {
                r is Ok
            } else {
                r == Err::<(), SignatureError>(SignatureError::Mismatch)
            },
        },
{
    match hex_decode(signature) {
        Ok(tag) => {
            if hmac_sha256_verify(secret, body, tag.as_slice()) {
                Ok(())
            } else {
                Err(SignatureError::Mismatch)
            }
        },
        Err(_) => Err(SignatureError::InvalidHex),
    }
}

} // verus!
