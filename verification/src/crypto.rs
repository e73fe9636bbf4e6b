//! The cryptographic primitives that payload decryption rests on.

use aes_gcm::aead::{Aead, KeyInit};
use aes_gcm::{Aes128Gcm, Key, Nonce};
use hkdf::Hkdf;
use p256::elliptic_curve::sec1::ToEncodedPoint;
use p256::{PublicKey, SecretKey};
use sha2::Sha256;
use vstd::prelude::*;

verus! {

/// The number that `bytes` spell, most significant byte first.
pub open spec fn big_endian(bytes: Seq<u8>) -> nat
    decreases bytes.len(),
{
    if bytes.len() == 0 {
        0
    } else {
        big_endian(bytes.drop_last()) * 256 + bytes.last() as nat
    }
}

/// The number of points on the P-256 curve.
pub open spec fn p256_order() -> nat {
    0xFFFFFFFF00000000FFFFFFFFFFFFFFFFBCE6FAADA7179E84F3B9CAC2FC632551nat
}

/// Whether `bytes` are a P-256 secret key: a number from one to below the order of the curve, in
/// twenty-four to thirty-two bytes.
pub open spec fn is_secret_key(bytes: Seq<u8>) -> bool {
    24 <= bytes.len() <= 32 && 0 < big_endian(bytes) < p256_order()
}

/// `bytes` with zeros before them up to thirty-two bytes.
pub open spec fn field_bytes(bytes: Seq<u8>) -> Seq<u8> {
    Seq::new((32 - bytes.len()) as nat, |i: int| 0u8) + bytes
}

/// Zeros before a number do not change it.
proof fn lemma_leading_zeros(count: nat, bytes: Seq<u8>)
    ensures
        big_endian(Seq::new(count, |i: int| 0u8) + bytes) == big_endian(bytes),
    decreases count + bytes.len(),
{
    let zeros = Seq::new(count, |i: int| 0u8);
    let all = zeros + bytes;
    if bytes.len() > 0 {
        lemma_leading_zeros(count, bytes.drop_last());
        assert(all.drop_last() =~= zeros + bytes.drop_last());
    } else if count > 0 {
        lemma_leading_zeros((count - 1) as nat, bytes);
        assert(all.drop_last() =~= Seq::new((count - 1) as nat, |i: int| 0u8) + bytes);
    } else {
        assert(all =~= bytes);
    }
}

/// A secret key stays one when it is written out in full.
pub proof fn full_secret_key(bytes: Seq<u8>)
    requires
        is_secret_key(bytes),
    ensures
        is_secret_key(field_bytes(bytes)),
        field_bytes(bytes).len() == 32,
{
    lemma_leading_zeros((32 - bytes.len()) as nat, bytes);
}

/// The P-256 point that `bytes` encode in one of the forms of SEC 1, in its uncompressed form;
/// `None` where they encode none, or the point at infinity.
pub uninterp spec fn p256_point(bytes: Seq<u8>) -> Option<Seq<u8>>;

/// The uncompressed public key that belongs to a P-256 secret key.
pub uninterp spec fn p256_public_key(secret: Seq<u8>) -> Seq<u8>;

/// The secret that a P-256 secret key and the public key of a peer agree on.
pub uninterp spec fn p256_shared_secret(secret: Seq<u8>, point: Seq<u8>) -> Seq<u8>;

/// The output of HKDF (RFC 5869) with SHA-256.
pub uninterp spec fn hkdf_sha256(salt: Seq<u8>, ikm: Seq<u8>, info: Seq<u8>, len: nat) -> Seq<u8>;

/// The plaintext that AES-128-GCM finds in `sealed`, which ends in the tag; `None` where the tag
/// does not fit, or where `sealed` is longer than the cipher takes.
pub uninterp spec fn aes128gcm_plaintext(key: Seq<u8>, nonce: Seq<u8>, sealed: Seq<u8>) -> Option<
    Seq<u8>,
>;

/// `SecretKey::from_slice` of the `p256` crate accepts the numbers of `is_secret_key` and no
/// others, and its one error reads "crypto error". The key is handed on as its thirty-two bytes.
#[verifier::external_body]
pub(crate) fn parse_secret_key(bytes: &[u8]) -> (res: Result<Vec<u8>, String>)
    ensures
        match res {
            Ok(secret) => is_secret_key(bytes@) && secret@ == field_bytes(bytes@),
            Err(fault) => !is_secret_key(bytes@) && fault@ == "crypto error"@,
        },
{
    match SecretKey::from_slice(bytes) {
        Ok(key) => Ok(key.to_bytes().to_vec()),
        Err(error) => Err(error.to_string()),
    }
}

/// `PublicKey::from_sec1_bytes` of the `p256` crate reads a point, or fails with the one error
/// "crypto error". The point is handed on in its uncompressed form, which reads as itself.
#[verifier::external_body]
pub(crate) fn parse_public_key(bytes: &[u8]) -> (res: Result<Vec<u8>, String>)
    ensures
        match res {
            Ok(point) => p256_point(bytes@) == Some(point@) && p256_point(point@) == Some(point@),
            Err(fault) => p256_point(bytes@) is None && fault@ == "crypto error"@,
        },
{
    match PublicKey::from_sec1_bytes(bytes) {
        Ok(key) => Ok(key.to_encoded_point(false).as_bytes().to_vec()),
        Err(error) => Err(error.to_string()),
    }
}

/// `SecretKey::public_key` of the `p256` crate, in the uncompressed form of SEC 1: a byte 4 and
/// two coordinates, which read as themselves.
#[verifier::external_body]
pub(crate) fn public_key_of(secret: &[u8]) -> (res: Vec<u8>)
    requires
        is_secret_key(secret@),
    ensures
        res@ == p256_public_key(secret@),
        res@.len() == 65,
        res@[0] == 4,
        p256_point(res@) == Some(res@),
{
    SecretKey::from_slice(secret).unwrap().public_key().to_encoded_point(false).as_bytes().to_vec()
}

/// `p256::ecdh::diffie_hellman`, whose raw secret is one coordinate of a point.
#[verifier::external_body]
pub(crate) fn diffie_hellman(secret: &[u8], point: &[u8]) -> (res: Vec<u8>)
    requires
        is_secret_key(secret@),
        p256_point(point@) is Some,
    ensures
        res@ == p256_shared_secret(secret@, point@),
        res@.len() == 32,
{
    let secret_key = SecretKey::from_slice(secret).unwrap();
    let public_key = PublicKey::from_sec1_bytes(point).unwrap();
    p256::ecdh::diffie_hellman(secret_key.to_nonzero_scalar(), public_key.as_affine())
        .raw_secret_bytes()
        .to_vec()
}

/// `Hkdf::<Sha256>::new` with a salt, and `expand` into `len` bytes, which fails only on more than
/// 255 blocks of thirty-two bytes.
#[verifier::external_body]
pub(crate) fn hkdf(salt: &[u8], ikm: &[u8], info: &[u8], len: usize) -> (res: Vec<u8>)
    requires
        len <= 255 * 32,
    ensures
        res@ == hkdf_sha256(salt@, ikm@, info@, len as nat),
        res@.len() == len,
{
    let mut okm = vec![0u8; len];
    Hkdf::<Sha256>::new(Some(salt), ikm).expand(info, &mut okm).unwrap();
    okm
}

/// `Aead::decrypt` of `Aes128Gcm` checks and cuts off a tag of sixteen bytes, or fails with the one
/// error "aead::Error". Keys of another length than sixteen bytes and nonces of another length than
/// twelve would make it panic.
#[verifier::external_body]
pub(crate) fn aes128gcm_decrypt(key: &[u8], nonce: &[u8], sealed: &[u8]) -> (res: Result<
    Vec<u8>,
    String,
>)
    requires
        key@.len() == 16,
        nonce@.len() == 12,
    ensures
        match res {
            Ok(plain) => aes128gcm_plaintext(key@, nonce@, sealed@) == Some(plain@) && plain@.len()
                + 16 == sealed@.len(),
            Err(fault) => aes128gcm_plaintext(key@, nonce@, sealed@) is None && fault@
                == "aead::Error"@,
        },
{
    let cipher = Aes128Gcm::new(Key::<Aes128Gcm>::from_slice(key));
    match cipher.decrypt(Nonce::from_slice(nonce), sealed) {
        Ok(plain) => Ok(plain),
        Err(error) => Err(error.to_string()),
    }
}

} // verus!
