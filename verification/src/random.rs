//! What is left to chance.

use crate::crypto::is_secret_key;
use p256::SecretKey;
use rand::rngs::OsRng;
use rand::RngCore;
use uuid::Uuid;
use vstd::prelude::*;

verus! {

/// Whether `c` is a digit or one of the letters `a` to `f`.
pub open spec fn is_hex_digit(c: char) -> bool {
    '0' <= c <= '9' || 'a' <= c <= 'f'
}

/// Whether `text` is a random UUID: five groups of lower-case hexadecimal digits, with the version
/// 4 and the variant of RFC 9562.
pub open spec fn is_random_uuid(text: Seq<char>) -> bool {
    &&& text.len() == 36
    &&& forall|i: int|
        0 <= i < 36 ==> if i == 8 || i == 13 || i == 18 || i == 23 {
            #[trigger] text[i] == '-'
        } else {
            is_hex_digit(text[i])
        }
    &&& text[14] == '4'
    &&& text[19] == '8' || text[19] == '9' || text[19] == 'a' || text[19] == 'b'
}

/// `RngCore::fill_bytes` of `OsRng` fills a buffer of `len` bytes. Which bytes those are, is up to
/// the operating system; the call panics where that has none to give.
#[verifier::external_body]
pub(crate) fn random_bytes(len: usize) -> (res: Vec<u8>)
    requires
        len <= isize::MAX,
    ensures
        res@.len() == len,
{
    let mut bytes = vec![0u8; len];
    OsRng.fill_bytes(&mut bytes);
    bytes
}

/// `SecretKey::random` of the `p256` crate draws a secret key from `OsRng`; it is handed on as its
/// thirty-two bytes. Which key that is, is up to the operating system; the call panics where that
/// has no randomness to give.
#[verifier::external_body]
pub(crate) fn random_secret_key() -> (res: Vec<u8>)
    ensures
        is_secret_key(res@),
        res@.len() == 32,
{
    SecretKey::random(&mut OsRng).to_bytes().to_vec()
}

/// `Uuid::new_v4`, in the hyphenated form that its `Display` writes. Which one it is, is up to the
/// operating system; the call panics where that has no randomness to give.
#[verifier::external_body]
pub(crate) fn random_uuid() -> (res: String)
    ensures
        is_random_uuid(res@),
{
    Uuid::new_v4().to_string()
}

} // verus!
