//! Decryption of Web Push payloads in the `aesgcm` encoding.

use crate::crypto::{
    aes128gcm_decrypt, diffie_hellman, hkdf, parse_public_key, parse_secret_key, public_key_of,
};
use crate::crypto::{
    aes128gcm_plaintext, field_bytes, full_secret_key, hkdf_sha256, is_secret_key, p256_point,
    p256_public_key, p256_shared_secret,
};
use crate::encoding::{
    base64, base64_determines_bytes, padded_base64, padded_base64_determines_bytes, url_safe_fault,
    Alphabet,
};
use crate::encoding::{url_safe_decode_padded, url_safe_decode_unpadded};
use crate::error::{Error, ErrorView};
use crate::text::{concat, drop_prefix, prefix_is_dropped, without_prefix};
use vstd::prelude::*;
use vstd::slice::slice_to_vec;
use vstd::utf8::encode_utf8;

verus! {

/// The bytes that `text` stands for in URL-safe base64, with or without padding.
pub open spec fn base64_bytes(text: Seq<char>) -> Option<Seq<u8>> {
    if exists|bytes: Seq<u8>| text == #[trigger] base64(bytes, Alphabet::UrlSafe) {
        Some(choose|bytes: Seq<u8>| text == #[trigger] base64(bytes, Alphabet::UrlSafe))
    } else if exists|bytes: Seq<u8>| text == #[trigger] padded_base64(bytes, Alphabet::UrlSafe) {
        Some(choose|bytes: Seq<u8>| text == #[trigger] padded_base64(bytes, Alphabet::UrlSafe))
    } else {
        None
    }
}

/// What is written in URL-safe base64, with or without padding, stands for the bytes that it was
/// written from.
pub proof fn base64_bytes_of_written(bytes: Seq<u8>)
    ensures
        base64_bytes(base64(bytes, Alphabet::UrlSafe)) == Some(bytes),
        base64_bytes(padded_base64(bytes, Alphabet::UrlSafe)) == Some(bytes),
{
    let plain = base64(bytes, Alphabet::UrlSafe);
    let read = choose|read: Seq<u8>| plain == #[trigger] base64(read, Alphabet::UrlSafe);
    base64_determines_bytes(read, bytes, Alphabet::UrlSafe);
    let padded = padded_base64(bytes, Alphabet::UrlSafe);
    if exists|read: Seq<u8>| padded == #[trigger] base64(read, Alphabet::UrlSafe) {
        let read = choose|read: Seq<u8>| padded == #[trigger] base64(read, Alphabet::UrlSafe);
        padded_base64_determines_bytes(read, bytes, Alphabet::UrlSafe);
    } else {
        let read = choose|read: Seq<u8>|
            padded == #[trigger] padded_base64(read, Alphabet::UrlSafe);
        padded_base64_determines_bytes(read, bytes, Alphabet::UrlSafe);
    }
}

/// A text stands for bytes exactly where it is what these are written as, with or without padding.
pub proof fn base64_text_is_what_is_written(text: Seq<char>, bytes: Seq<u8>)
    ensures
        base64_bytes(text) == Some(bytes) <==> text == base64(bytes, Alphabet::UrlSafe) || text
            == padded_base64(bytes, Alphabet::UrlSafe),
        base64_bytes(text) is None ==> text != base64(bytes, Alphabet::UrlSafe) && text
            != padded_base64(bytes, Alphabet::UrlSafe),
{
    base64_bytes_of_written(bytes);
    if base64_bytes(text) is Some {
        base64_bytes_of_written(base64_bytes(text)->0);
    }
}

/// The error for a step that failed, with the reason that it gave.
pub open spec fn crypto_failure(step: Seq<char>, reason: Seq<char>) -> ErrorView {
    ErrorView::Crypto(step + ": "@ + reason)
}

/// The error for a step that failed, with the reason that it gave.
pub fn crypto_error(step: &str, reason: &str) -> (res: Error)
    ensures
        res@ == crypto_failure(step@, reason@),
        res@ == ErrorView::Crypto(step@ + ": "@ + reason@),
{
    Error::Crypto(concat(concat(step, ": ").as_str(), reason))
}

/// Reads URL-safe base64, with or without padding.
pub fn decode_b64(text: &str) -> (res: Result<Vec<u8>, Error>)
    ensures
        match base64_bytes(text@) {
            Some(bytes) => res matches Ok(read) && read@ == bytes,
            None => res matches Err(error) && error@ == crypto_failure(
                "Base64 decode failed"@,
                url_safe_fault(text@),
            ),
        },
        match res {
            Ok(read) => text@ == base64(read@, Alphabet::UrlSafe) || text@ == padded_base64(
                read@,
                Alphabet::UrlSafe,
            ),
            Err(error) => error@ == ErrorView::Crypto(
                "Base64 decode failed"@ + ": "@ + url_safe_fault(text@),
            ) && forall|bytes: Seq<u8>|
                text@ != #[trigger] base64(bytes, Alphabet::UrlSafe) && text@ != padded_base64(
                    bytes,
                    Alphabet::UrlSafe,
                ),
        },
{
    match url_safe_decode_unpadded(text) {
        Some(bytes) => {
            proof {
                base64_bytes_of_written(bytes@);
            }
            Ok(bytes)
        },
        None => match url_safe_decode_padded(text) {
            Ok(bytes) => {
                proof {
                    base64_bytes_of_written(bytes@);
                }
                Ok(bytes)
            },
            Err(fault) => Err(crypto_error("Base64 decode failed", fault.as_str())),
        },
    }
}

/// The message in a decrypted record: a record starts with the length of its padding in two bytes,
/// most significant first, and the padding. A record that is too short for that is all message.
pub open spec fn message_in(record: Seq<u8>) -> Seq<u8> {
    let padding = if record.len() >= 2 {
        record[0] as int * 256 + record[1]
    } else {
        0
    };
    if record.len() >= 2 + padding {
        record.skip(2 + padding)
    } else {
        record
    }
}

/// A record is two bytes of length, as many bytes of padding, and the message; one that is too short
/// for that is all message.
pub proof fn message_stands_behind_the_padding(record: Seq<u8>)
    ensures
        record.len() < 2 ==> message_in(record) == record,
        record.len() >= 2 && record.len() < 2 + 256 * record[0] + record[1] ==> message_in(record)
            == record,
        record.len() >= 2 && record.len() >= 2 + 256 * record[0] + record[1] ==> {
            &&& message_in(record).len() == record.len() - 2 - 256 * record[0] - record[1]
            &&& forall|i: int|
                0 <= i < message_in(record).len() ==> #[trigger] message_in(record)[i] == record[i
                    + 2 + 256 * record[0] + record[1]]
        },
{
}

/// Takes the padding off a decrypted record.
pub fn remove_padding(record: Vec<u8>) -> (res: Vec<u8>)
    ensures
        res@ == message_in(record@),
{
    if record.len() >= 2 {
        let padding: usize = record[0] as usize * 256 + record[1] as usize;
        if record.len() - 2 >= padding {
            let mut record = record;
            let start: usize = 2 + padding;
            return record.split_off(start);
        }
    }
    record
}

/// `bytes` with their length before them in two bytes, most significant first.
pub open spec fn with_length(bytes: Seq<u8>) -> Seq<u8> {
    seq![(bytes.len() / 256 % 256) as u8, (bytes.len() % 256) as u8] + bytes
}

/// The record that a sender makes of `message`: the length of the padding, the padding, and the
/// message.
pub open spec fn record_of(padding: Seq<u8>, message: Seq<u8>) -> Seq<u8> {
    with_length(padding) + message
}

/// A message behind any padding is found again, whatever the padding holds.
pub proof fn padding_is_removed(padding: Seq<u8>, message: Seq<u8>)
    requires
        padding.len() < 65536,
    ensures
        message_in(record_of(padding, message)) == message,
        message_in(
            seq![(padding.len() / 256) as u8, (padding.len() % 256) as u8] + padding + message,
        ) == message,
{
    let record = record_of(padding, message);
    assert(record[0] as int * 256 + record[1] == padding.len());
    assert(record.skip(2 + padding.len() as int) =~= message);
}

/// What becomes of a record, once the cipher has opened it or refused.
pub fn opened_message(opened: Result<Vec<u8>, String>) -> (res: Result<Vec<u8>, Error>)
    ensures
        match opened {
            Ok(record) => res matches Ok(message) && message@ == message_in(record@),
            Err(reason) => res matches Err(error) && error@ == crypto_failure(
                "Decryption failed"@,
                reason@,
            ),
        },
{
    match opened {
        Ok(record) => Ok(remove_padding(record)),
        Err(reason) => Err(crypto_error("Decryption failed", reason.as_str())),
    }
}

/// The key and the nonce that a payload is sealed with.
pub struct ContentKeys {
    pub key: Vec<u8>,
    pub nonce: Vec<u8>,
}

/// The key that the two secrets are turned into.
pub open spec fn pseudorandom_key(shared_secret: Seq<u8>, auth_secret: Seq<u8>) -> Seq<u8> {
    hkdf_sha256(auth_secret, shared_secret, encode_utf8("Content-Encoding: auth\0"@), 32)
}

/// What a payload is bound to besides the secrets: the curve and the public keys of the receiver and
/// of the sender.
pub open spec fn key_context(receiver: Seq<u8>, sender: Seq<u8>) -> Seq<u8> {
    encode_utf8("P-256\0"@) + with_length(receiver) + with_length(sender)
}

/// The context is the name of the curve and a zero byte, then the public key of the receiver and that
/// of the sender, each behind its length in two bytes.
pub proof fn parts_of_the_context(receiver: Seq<u8>, sender: Seq<u8>)
    requires
        receiver.len() < 65536,
        sender.len() < 65536,
    ensures
        key_context(receiver, sender) == encode_utf8("P-256\0"@) + seq![
            (receiver.len() / 256) as u8,
            (receiver.len() % 256) as u8,
        ] + receiver + seq![(sender.len() / 256) as u8, (sender.len() % 256) as u8] + sender,
{
    assert(key_context(receiver, sender) =~= encode_utf8("P-256\0"@) + seq![
        (receiver.len() / 256) as u8,
        (receiver.len() % 256) as u8,
    ] + receiver + seq![(sender.len() / 256) as u8, (sender.len() % 256) as u8] + sender);
}

/// The key that a payload is sealed with.
pub open spec fn content_key(
    shared_secret: Seq<u8>,
    auth_secret: Seq<u8>,
    salt: Seq<u8>,
    context: Seq<u8>,
) -> Seq<u8> {
    hkdf_sha256(
        salt,
        pseudorandom_key(shared_secret, auth_secret),
        encode_utf8("Content-Encoding: aesgcm\0"@) + context,
        16,
    )
}

/// The nonce that a payload is sealed with.
pub open spec fn content_nonce(
    shared_secret: Seq<u8>,
    auth_secret: Seq<u8>,
    salt: Seq<u8>,
    context: Seq<u8>,
) -> Seq<u8> {
    hkdf_sha256(
        salt,
        pseudorandom_key(shared_secret, auth_secret),
        encode_utf8("Content-Encoding: nonce\0"@) + context,
        12,
    )
}

/// The record that the cipher finds in a payload, if it was sealed with these.
pub open spec fn record_in(
    shared_secret: Seq<u8>,
    auth_secret: Seq<u8>,
    salt: Seq<u8>,
    context: Seq<u8>,
    raw_data: Seq<u8>,
) -> Option<Seq<u8>> {
    aes128gcm_plaintext(
        content_key(shared_secret, auth_secret, salt, context),
        content_nonce(shared_secret, auth_secret, salt, context),
        raw_data,
    )
}

/// Appends `more` to `bytes`.
fn append_bytes(bytes: &mut Vec<u8>, more: &[u8])
    ensures
        final(bytes)@ == old(bytes)@ + more@,
{
    bytes.extend_from_slice(more);
    assert(bytes@ =~= old(bytes)@ + more@);
}

/// Appends `more` to `bytes`, with its length in two bytes before it.
fn append_with_length(bytes: &mut Vec<u8>, more: &[u8])
    ensures
        final(bytes)@ == old(bytes)@ + with_length(more@),
{
    bytes.push((more.len() / 256 % 256) as u8);
    bytes.push((more.len() % 256) as u8);
    append_bytes(bytes, more);
    assert(bytes@ =~= old(bytes)@ + with_length(more@));
}

/// Writes out what a payload is bound to, from the public keys of the receiver and of the sender.
pub fn encode_key_context(receiver: &[u8], sender: &[u8]) -> (res: Vec<u8>)
    ensures
        res@ == key_context(receiver@, sender@),
        receiver@.len() < 65536 && sender@.len() < 65536 ==> res@ == encode_utf8("P-256\0"@) + seq![
            (receiver@.len() / 256) as u8,
            (receiver@.len() % 256) as u8,
        ] + receiver@ + seq![(sender@.len() / 256) as u8, (sender@.len() % 256) as u8] + sender@,
{
    let mut context = slice_to_vec("P-256\0".as_bytes());
    append_with_length(&mut context, receiver);
    append_with_length(&mut context, sender);
    proof {
        if receiver@.len() < 65536 && sender@.len() < 65536 {
            parts_of_the_context(receiver@, sender@);
        }
    }
    context
}

/// Derives the key and the nonce of a payload.
pub fn derive_content_keys(
    shared_secret: &[u8],
    auth_secret: &[u8],
    salt: &[u8],
    context: &[u8],
) -> (res: ContentKeys)
    ensures
        res.key@ == content_key(shared_secret@, auth_secret@, salt@, context@),
        res.key@.len() == 16,
        res.nonce@ == content_nonce(shared_secret@, auth_secret@, salt@, context@),
        res.nonce@.len() == 12,
        ({
            let prk = hkdf_sha256(
                auth_secret@,
                shared_secret@,
                encode_utf8("Content-Encoding: auth\0"@),
                32,
            );
            &&& res.key@ == hkdf_sha256(
                salt@,
                prk,
                encode_utf8("Content-Encoding: aesgcm\0"@) + context@,
                16,
            )
            &&& res.nonce@ == hkdf_sha256(
                salt@,
                prk,
                encode_utf8("Content-Encoding: nonce\0"@) + context@,
                12,
            )
        }),
{
    let prk = hkdf(auth_secret, shared_secret, "Content-Encoding: auth\0".as_bytes(), 32);
    let mut key_info = slice_to_vec("Content-Encoding: aesgcm\0".as_bytes());
    append_bytes(&mut key_info, context);
    let mut nonce_info = slice_to_vec("Content-Encoding: nonce\0".as_bytes());
    append_bytes(&mut nonce_info, context);
    let key = hkdf(salt, prk.as_slice(), key_info.as_slice(), 16);
    let nonce = hkdf(salt, prk.as_slice(), nonce_info.as_slice(), 12);
    ContentKeys { key, nonce }
}

/// What a payload holds, from the parts that it and the receiver's keys consist of.
pub open spec fn unsealed(
    salt: Seq<u8>,
    auth_secret: Seq<u8>,
    private_key: Seq<u8>,
    public_key: Seq<u8>,
    raw_data: Seq<u8>,
) -> Result<Seq<u8>, ErrorView> {
    if !is_secret_key(private_key) {
        Err(crypto_failure("Invalid private key"@, "crypto error"@))
    } else {
        match p256_point(public_key) {
            None => Err(crypto_failure("Invalid public key"@, "crypto error"@)),
            Some(point) => {
                let secret = field_bytes(private_key);
                let shared_secret = p256_shared_secret(secret, point);
                let context = key_context(p256_public_key(secret), public_key);
                match record_in(shared_secret, auth_secret, salt, context, raw_data) {
                    Some(record) => Ok(message_in(record)),
                    None => Err(crypto_failure("Decryption failed"@, "aead::Error"@)),
                }
            },
        }
    }
}

/// What a payload holds, from the texts of its headers and of the receiver's keys. The texts are
/// read in the order salt, authentication secret, private key, public key, and the first that is no
/// base64 is the one that is reported.
pub open spec fn decrypted(
    crypto_key: Seq<char>,
    salt: Seq<char>,
    auth_secret: Seq<char>,
    private_key: Seq<char>,
    raw_data: Seq<u8>,
) -> Result<Seq<u8>, ErrorView> {
    let salt_text = without_prefix(salt, "salt="@);
    let public_text = without_prefix(crypto_key, "dh="@);
    match base64_bytes(salt_text) {
        None => Err(crypto_failure("Base64 decode failed"@, url_safe_fault(salt_text))),
        Some(salt) => match base64_bytes(auth_secret) {
            None => Err(crypto_failure("Base64 decode failed"@, url_safe_fault(auth_secret))),
            Some(auth) => match base64_bytes(private_key) {
                None => Err(crypto_failure("Base64 decode failed"@, url_safe_fault(private_key))),
                Some(private) => match base64_bytes(public_text) {
                    None => Err(
                        crypto_failure("Base64 decode failed"@, url_safe_fault(public_text)),
                    ),
                    Some(public) => unsealed(salt, auth, private, public, raw_data),
                },
            },
        },
    }
}

/// Whether a result says what `meant` says.
pub open spec fn says(result: Result<Vec<u8>, Error>, meant: Result<Seq<u8>, ErrorView>) -> bool {
    match meant {
        Ok(bytes) => result matches Ok(message) && message@ == bytes,
        Err(failure) => result matches Err(error) && error@ == failure,
    }
}

/// Opens a payload with the parts that it and the receiver's keys consist of. The cipher's tag takes
/// sixteen bytes of the payload, so that a shorter one is never opened.
pub fn unseal(
    salt: &[u8],
    auth_secret: &[u8],
    private_key: &[u8],
    public_key: &[u8],
    raw_data: &[u8],
) -> (res: Result<Vec<u8>, Error>)
    ensures
        says(res, unsealed(salt@, auth_secret@, private_key@, public_key@, raw_data@)),
        match unsealed(salt@, auth_secret@, private_key@, public_key@, raw_data@) {
            Ok(bytes) => res matches Ok(message) && message@ == bytes,
            Err(failure) => res matches Err(error) && error@ == failure,
        },
        res matches Ok(message) ==> message@.len() + 16 <= raw_data@.len(),
{
    let secret = match parse_secret_key(private_key) {
        Ok(secret) => secret,
        Err(fault) => {
            return Err(crypto_error("Invalid private key", fault.as_str()));
        },
    };
    let point = match parse_public_key(public_key) {
        Ok(point) => point,
        Err(fault) => {
            return Err(crypto_error("Invalid public key", fault.as_str()));
        },
    };
    proof {
        full_secret_key(private_key@);
    }
    let shared_secret = diffie_hellman(secret.as_slice(), point.as_slice());
    let receiver = public_key_of(secret.as_slice());
    let context = encode_key_context(receiver.as_slice(), public_key);
    let keys = derive_content_keys(
        shared_secret.as_slice(),
        auth_secret,
        salt,
        context.as_slice(),
    );
    opened_message(aes128gcm_decrypt(keys.key.as_slice(), keys.nonce.as_slice(), raw_data))
}

/// Decrypts a payload. `crypto_key_str` is the sender's public key, as in `dh=...`, and `salt_str`
/// the salt, as in `salt=...`.
pub fn decrypt(
    crypto_key_str: &str,
    salt_str: &str,
    auth_secret_b64: &str,
    private_key_b64: &str,
    raw_data: &[u8],
) -> (res: Result<Vec<u8>, Error>)
    ensures
        says(
            res,
            decrypted(
                crypto_key_str@,
                salt_str@,
                auth_secret_b64@,
                private_key_b64@,
                raw_data@,
            ),
        ),
        match decrypted(
            crypto_key_str@,
            salt_str@,
            auth_secret_b64@,
            private_key_b64@,
            raw_data@,
        ) {
            Ok(bytes) => res matches Ok(message) && message@ == bytes,
            Err(failure) => res matches Err(error) && error@ == failure,
        },
        res matches Ok(message) ==> message@.len() + 16 <= raw_data@.len(),
{
    let salt = match decode_b64(drop_prefix(salt_str, "salt=")) {
        Ok(bytes) => bytes,
        Err(error) => {
            return Err(error);
        },
    };
    let auth_secret = match decode_b64(auth_secret_b64) {
        Ok(bytes) => bytes,
        Err(error) => {
            return Err(error);
        },
    };
    let private_key = match decode_b64(private_key_b64) {
        Ok(bytes) => bytes,
        Err(error) => {
            return Err(error);
        },
    };
    let public_key = match decode_b64(drop_prefix(crypto_key_str, "dh=")) {
        Ok(bytes) => bytes,
        Err(error) => {
            return Err(error);
        },
    };
    unseal(
        salt.as_slice(),
        auth_secret.as_slice(),
        private_key.as_slice(),
        public_key.as_slice(),
        raw_data,
    )
}

/// What a sender sealed is found: where the cipher opens the payload, under the keys that the
/// secrets, the salt and the two public keys give, to a record of a message, that message comes out.
pub proof fn sealed_message_is_found(
    salt: Seq<u8>,
    auth_secret: Seq<u8>,
    private_key: Seq<u8>,
    public_key: Seq<u8>,
    raw_data: Seq<u8>,
    padding: Seq<u8>,
    message: Seq<u8>,
)
    requires
        is_secret_key(private_key),
        p256_point(public_key) is Some,
        padding.len() < 65536,
        ({
            let secret = field_bytes(private_key);
            record_in(
                p256_shared_secret(secret, p256_point(public_key)->0),
                auth_secret,
                salt,
                key_context(p256_public_key(secret), public_key),
                raw_data,
            ) == Some(record_of(padding, message))
        }),
    ensures
        unsealed(salt, auth_secret, private_key, public_key, raw_data) == Ok::<Seq<u8>, ErrorView>(
            message,
        ),
{
    padding_is_removed(padding, message);
}

/// A payload of the `aesgcm` scheme is decrypted. Let the receiver have a secret key and an
/// authentication secret, and the sender a key that it names behind `dh=`, and let `salt=` name the
/// salt. Let the payload be a record of two bytes of length, padding and message, sealed with
/// AES-128-GCM under a key and a nonce of HKDF with SHA-256: from the salt and from what HKDF makes of
/// the authentication secret and the shared secret, each with its own label and with the two public
/// keys. Then the message comes out.
pub proof fn payload_of_the_scheme_is_decrypted(
    private_key: Seq<u8>,
    auth_secret: Seq<u8>,
    sender: Seq<u8>,
    salt: Seq<u8>,
    texts: (Seq<char>, Seq<char>, Seq<char>, Seq<char>),
    raw_data: Seq<u8>,
    padding: Seq<u8>,
    message: Seq<u8>,
)
    requires
        is_secret_key(private_key),
        p256_point(sender) is Some,
        p256_public_key(field_bytes(private_key)).len() < 65536,
        sender.len() < 65536,
        padding.len() < 65536,
        texts.0 == base64(private_key, Alphabet::UrlSafe) || texts.0 == padded_base64(
            private_key,
            Alphabet::UrlSafe,
        ),
        texts.1 == base64(auth_secret, Alphabet::UrlSafe) || texts.1 == padded_base64(
            auth_secret,
            Alphabet::UrlSafe,
        ),
        texts.2 == base64(sender, Alphabet::UrlSafe) || texts.2 == padded_base64(
            sender,
            Alphabet::UrlSafe,
        ),
        texts.3 == base64(salt, Alphabet::UrlSafe) || texts.3 == padded_base64(
            salt,
            Alphabet::UrlSafe,
        ),
        ({
            let receiver = p256_public_key(field_bytes(private_key));
            let shared = p256_shared_secret(field_bytes(private_key), p256_point(sender)->0);
            let prk = hkdf_sha256(
                auth_secret,
                shared,
                encode_utf8("Content-Encoding: auth\0"@),
                32,
            );
            let context = encode_utf8("P-256\0"@) + seq![
                (receiver.len() / 256) as u8,
                (receiver.len() % 256) as u8,
            ] + receiver + seq![(sender.len() / 256) as u8, (sender.len() % 256) as u8] + sender;
            aes128gcm_plaintext(
                hkdf_sha256(salt, prk, encode_utf8("Content-Encoding: aesgcm\0"@) + context, 16),
                hkdf_sha256(salt, prk, encode_utf8("Content-Encoding: nonce\0"@) + context, 12),
                raw_data,
            ) == Some(
                seq![(padding.len() / 256) as u8, (padding.len() % 256) as u8] + padding + message,
            )
        }),
    ensures
        decrypted("dh="@ + texts.2, "salt="@ + texts.3, texts.1, texts.0, raw_data) == Ok::<
            Seq<u8>,
            ErrorView,
        >(message),
{
    prefix_is_dropped("dh="@, texts.2);
    prefix_is_dropped("salt="@, texts.3);
    base64_text_is_what_is_written(texts.0, private_key);
    base64_text_is_what_is_written(texts.1, auth_secret);
    base64_text_is_what_is_written(texts.2, sender);
    base64_text_is_what_is_written(texts.3, salt);
    parts_of_the_context(p256_public_key(field_bytes(private_key)), sender);
    padding_is_removed(padding, message);
}

/// When decryption succeeds and why it fails. It succeeds exactly where the four texts can be read, the
/// two keys are keys and the cipher opens the payload under the keys of the scheme. Else the first that
/// fails is reported: the salt, the authentication secret, the private key, the sender's key, then what
/// the two keys hold, then the cipher.
pub proof fn decryption_fails_for_the_first_reason(
    crypto_key: Seq<char>,
    salt: Seq<char>,
    auth_secret: Seq<char>,
    private_key: Seq<char>,
    raw_data: Seq<u8>,
)
    ensures
        ({
            let result = decrypted(crypto_key, salt, auth_secret, private_key, raw_data);
            let salt_text = without_prefix(salt, "salt="@);
            let sender_text = without_prefix(crypto_key, "dh="@);
            let unreadable = |text: Seq<char>|
                Err::<Seq<u8>, ErrorView>(
                    ErrorView::Crypto("Base64 decode failed"@ + ": "@ + url_safe_fault(text)),
                );
            let private = base64_bytes(private_key)->0;
            let sender = base64_bytes(sender_text)->0;
            let salt_read = base64_bytes(salt_text) is Some;
            let auth_read = salt_read && base64_bytes(auth_secret) is Some;
            let private_read = auth_read && base64_bytes(private_key) is Some;
            let all_read = private_read && base64_bytes(sender_text) is Some;
            let receiver = p256_public_key(field_bytes(private));
            let prk = hkdf_sha256(
                base64_bytes(auth_secret)->0,
                p256_shared_secret(field_bytes(private), p256_point(sender)->0),
                encode_utf8("Content-Encoding: auth\0"@),
                32,
            );
            let context = encode_utf8("P-256\0"@) + seq![
                (receiver.len() / 256) as u8,
                (receiver.len() % 256) as u8,
            ] + receiver + seq![(sender.len() / 256) as u8, (sender.len() % 256) as u8] + sender;
            let opened = aes128gcm_plaintext(
                hkdf_sha256(
                    base64_bytes(salt_text)->0,
                    prk,
                    encode_utf8("Content-Encoding: aesgcm\0"@) + context,
                    16,
                ),
                hkdf_sha256(
                    base64_bytes(salt_text)->0,
                    prk,
                    encode_utf8("Content-Encoding: nonce\0"@) + context,
                    12,
                ),
                raw_data,
            );
            let short = receiver.len() < 65536 && sender.len() < 65536;
            &&& !salt_read ==> result == unreadable(salt_text)
            &&& salt_read && !auth_read ==> result == unreadable(auth_secret)
            &&& auth_read && !private_read ==> result == unreadable(private_key)
            &&& private_read && !all_read ==> result == unreadable(sender_text)
            &&& all_read && !is_secret_key(private) ==> result == Err::<Seq<u8>, ErrorView>(
                ErrorView::Crypto("Invalid private key"@ + ": "@ + "crypto error"@),
            )
            &&& all_read && is_secret_key(private) && p256_point(sender) is None ==> result == Err::<
                Seq<u8>,
                ErrorView,
            >(ErrorView::Crypto("Invalid public key"@ + ": "@ + "crypto error"@))
            &&& all_read && is_secret_key(private) && p256_point(sender) is Some && short ==> result
                == match opened {
                Some(record) => Ok::<Seq<u8>, ErrorView>(message_in(record)),
                None => Err::<Seq<u8>, ErrorView>(
                    ErrorView::Crypto("Decryption failed"@ + ": "@ + "aead::Error"@),
                ),
            }
        }),
{
    let private = base64_bytes(private_key)->0;
    let sender = base64_bytes(without_prefix(crypto_key, "dh="@))->0;
    let receiver = p256_public_key(field_bytes(private));
    if receiver.len() < 65536 && sender.len() < 65536 {
        parts_of_the_context(receiver, sender);
    }
}

/// The names `dh=` and `salt=` before the values of the headers make no difference.
pub proof fn header_names_make_no_difference(
    crypto_key: Seq<char>,
    salt: Seq<char>,
    auth_secret: Seq<char>,
    private_key: Seq<char>,
    raw_data: Seq<u8>,
)
    requires
        !("dh="@.is_prefix_of(crypto_key)),
        !("salt="@.is_prefix_of(salt)),
    ensures
        decrypted("dh="@ + crypto_key, "salt="@ + salt, auth_secret, private_key, raw_data)
            == decrypted(crypto_key, salt, auth_secret, private_key, raw_data),
{
    prefix_is_dropped("dh="@, crypto_key);
    prefix_is_dropped("salt="@, salt);
}

} // verus!
