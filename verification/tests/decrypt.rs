use aes_gcm::aead::{Aead, KeyInit};
use aes_gcm::{Aes128Gcm, Key, Nonce};
use base64::engine::general_purpose::{URL_SAFE, URL_SAFE_NO_PAD};
use base64::Engine;
use hkdf::Hkdf;
use p256::elliptic_curve::sec1::ToEncodedPoint;
use p256::{PublicKey, SecretKey};
use push_receiver::client::{decode_payload, PayloadMode};
use push_receiver::decrypt::{
    crypto_error, decode_b64, decrypt, derive_content_keys, encode_key_context, opened_message,
    remove_padding, unseal,
};
use push_receiver::error::Error;
use push_receiver::proto::{AppData, DataMessageStanza};
use push_receiver::register::{generate_keys, Keys};
use sha2::Sha256;

struct Sealed {
    sender_key: Vec<u8>,
    salt: Vec<u8>,
    data: Vec<u8>,
}

fn expanded(salt: &[u8], ikm: &[u8], info: &[u8], len: usize) -> Vec<u8> {
    let mut okm = vec![0u8; len];
    Hkdf::<Sha256>::new(Some(salt), ikm)
        .expand(info, &mut okm)
        .unwrap();
    okm
}

fn info(name: &str, receiver_key: &[u8], sender_key: &[u8]) -> Vec<u8> {
    let mut info = format!("Content-Encoding: {name}\0P-256\0").into_bytes();
    for key in [receiver_key, sender_key] {
        info.extend((key.len() as u16).to_be_bytes());
        info.extend(key);
    }
    info
}

fn seal(keys: &Keys, record: &[u8]) -> Sealed {
    let sender = SecretKey::from_slice(&[7u8; 32]).unwrap();
    let sender_key = sender
        .public_key()
        .to_encoded_point(false)
        .as_bytes()
        .to_vec();
    let receiver_key = URL_SAFE_NO_PAD.decode(&keys.public_key).unwrap();
    let receiver = PublicKey::from_sec1_bytes(&receiver_key).unwrap();
    let auth = URL_SAFE_NO_PAD.decode(&keys.auth_secret).unwrap();
    let salt = vec![3u8; 16];
    let shared = p256::ecdh::diffie_hellman(sender.to_nonzero_scalar(), receiver.as_affine());
    let ikm = shared.raw_secret_bytes().to_vec();
    let prk = expanded(&auth, &ikm, b"Content-Encoding: auth\0", 32);
    let key = expanded(&salt, &prk, &info("aesgcm", &receiver_key, &sender_key), 16);
    let nonce = expanded(&salt, &prk, &info("nonce", &receiver_key, &sender_key), 12);
    let data = Aes128Gcm::new(Key::<Aes128Gcm>::from_slice(&key))
        .encrypt(Nonce::from_slice(&nonce), record)
        .unwrap();
    Sealed {
        sender_key,
        salt,
        data,
    }
}

fn reason(result: Result<Vec<u8>, Error>) -> String {
    match result {
        Err(Error::Crypto(text)) => text,
        _ => panic!("no failure"),
    }
}

#[test]
fn payload_is_decrypted() {
    let keys = generate_keys();
    let sealed = seal(&keys, &[0, 2, 0, 0, b'h', b'i']);
    let key_text = URL_SAFE_NO_PAD.encode(&sealed.sender_key);
    let salt_text = URL_SAFE_NO_PAD.encode(&sealed.salt);
    for (key, salt) in [
        (format!("dh={key_text}"), format!("salt={salt_text}")),
        (key_text.clone(), salt_text.clone()),
        (
            format!("dh={}", URL_SAFE.encode(&sealed.sender_key)),
            format!("salt={}", URL_SAFE.encode(&sealed.salt)),
        ),
    ] {
        let plain = decrypt(
            &key,
            &salt,
            &keys.auth_secret,
            &keys.private_key,
            &sealed.data,
        );
        assert_eq!(plain.unwrap(), b"hi".to_vec());
    }
}

#[test]
fn record_of_another_sender_is_decrypted() {
    let sealed = URL_SAFE_NO_PAD
        .decode("6nqAQUME8hNqw5J3kl8cpVVJylXKYqZOeseZG8UueKpA")
        .unwrap();
    let plain = decrypt(
        "dh=BNoRDbb84JGm8g5Z5CFxurSqsXWJ11ItfXEWYVLE85Y7CYkDjXsIEc4aqxYaQ1G8BqkXCJ6DPpDrWtdWj_mugHU",
        "salt=lngarbyKfMoi9Z75xYXmkg",
        "R29vIGdvbyBnJyBqb29iIQ",
        "9FWl15_QUQAWDaD3k3l50ZBZQJ4au27F1V4F0uLSD_M",
        &sealed,
    );
    assert_eq!(plain.unwrap(), b"I am the walrus".to_vec());
}

#[test]
fn payload_is_bound_to_the_public_keys() {
    let keys = generate_keys();
    let sealed = seal(&keys, &[0, 0, 5]);
    let secret = URL_SAFE_NO_PAD.decode(&keys.private_key).unwrap();
    let auth = URL_SAFE_NO_PAD.decode(&keys.auth_secret).unwrap();
    let compressed = PublicKey::from_sec1_bytes(&sealed.sender_key)
        .unwrap()
        .to_encoded_point(true)
        .as_bytes()
        .to_vec();
    let opened = unseal(&sealed.salt, &auth, &secret, &sealed.sender_key, &sealed.data);
    assert_eq!(opened.unwrap(), vec![5]);
    let other = unseal(&sealed.salt, &auth, &secret, &compressed, &sealed.data);
    assert_eq!(reason(other), "Decryption failed: aead::Error");
}

#[test]
fn payload_without_a_full_tag_is_refused() {
    let keys = generate_keys();
    let sealed = seal(&keys, &[]);
    assert_eq!(sealed.data.len(), 16);
    let secret = URL_SAFE_NO_PAD.decode(&keys.private_key).unwrap();
    let auth = URL_SAFE_NO_PAD.decode(&keys.auth_secret).unwrap();
    let opened = unseal(&sealed.salt, &auth, &secret, &sealed.sender_key, &sealed.data);
    assert_eq!(opened.unwrap(), Vec::<u8>::new());
    for len in 0..16 {
        let short = &sealed.data[..len];
        let opened = unseal(&sealed.salt, &auth, &secret, &sealed.sender_key, short);
        assert_eq!(reason(opened), "Decryption failed: aead::Error");
    }
}

#[test]
fn encrypted_message_is_decoded() {
    let keys = generate_keys();
    let sealed = seal(&keys, &[0, 0, 1, 2]);
    let message = DataMessageStanza {
        app_data: vec![
            AppData {
                key: "encryption".to_string(),
                value: format!("salt={}", URL_SAFE_NO_PAD.encode(&sealed.salt)),
            },
            AppData {
                key: "crypto-key".to_string(),
                value: format!("dh={}", URL_SAFE_NO_PAD.encode(&sealed.sender_key)),
            },
        ],
        raw_data: Some(sealed.data.clone()),
        ..DataMessageStanza::default()
    };
    assert_eq!(
        decode_payload(&message, &PayloadMode::Decrypt(keys)),
        Some(vec![1, 2])
    );
    assert_eq!(
        decode_payload(&message, &PayloadMode::Decrypt(generate_keys())),
        None
    );
}

#[test]
fn tampered_payload_is_refused() {
    let keys = generate_keys();
    let mut sealed = seal(&keys, &[0, 0, 5]);
    sealed.data[0] ^= 1;
    let secret = URL_SAFE_NO_PAD.decode(&keys.private_key).unwrap();
    let auth = URL_SAFE_NO_PAD.decode(&keys.auth_secret).unwrap();
    let opened = unseal(&sealed.salt, &auth, &secret, &sealed.sender_key, &sealed.data);
    assert_eq!(reason(opened), "Decryption failed: aead::Error");
    let short = unseal(&sealed.salt, &auth, &secret, &sealed.sender_key, &[1, 2]);
    assert_eq!(reason(short), "Decryption failed: aead::Error");
}

#[test]
fn bad_keys_are_refused() {
    let point = SecretKey::from_slice(&[7u8; 32])
        .unwrap()
        .public_key()
        .to_encoded_point(true)
        .as_bytes()
        .to_vec();
    for secret in [vec![0u8; 32], vec![255u8; 32], vec![1u8; 23], vec![1u8; 33]] {
        assert_eq!(
            reason(unseal(&[], &[], &secret, &point, &[])),
            "Invalid private key: crypto error"
        );
    }
    for public in [vec![], vec![0u8], vec![4u8; 65]] {
        assert_eq!(
            reason(unseal(&[], &[], &[1u8; 24], &public, &[])),
            "Invalid public key: crypto error"
        );
    }
    assert_eq!(
        reason(unseal(&[], &[], &[1u8; 24], &point, &[])),
        "Decryption failed: aead::Error"
    );
}

#[test]
fn order_of_a_curve_is_no_secret_key() {
    let point = SecretKey::from_slice(&[7u8; 32])
        .unwrap()
        .public_key()
        .to_encoded_point(false)
        .as_bytes()
        .to_vec();
    let mut order = vec![
        0xFF, 0xFF, 0xFF, 0xFF, 0, 0, 0, 0, 0xFF, 0xFF, 0xFF, 0xFF, 0xFF, 0xFF, 0xFF, 0xFF, 0xBC,
        0xE6, 0xFA, 0xAD, 0xA7, 0x17, 0x9E, 0x84, 0xF3, 0xB9, 0xCA, 0xC2, 0xFC, 0x63, 0x25, 0x51,
    ];
    assert_eq!(
        reason(unseal(&[], &[], &order, &point, &[])),
        "Invalid private key: crypto error"
    );
    order[31] = 0x50;
    assert_eq!(
        reason(unseal(&[], &[], &order, &point, &[])),
        "Decryption failed: aead::Error"
    );
}

#[test]
fn base64_with_and_without_padding() {
    assert_eq!(decode_b64("-_8").unwrap(), vec![0xFB, 0xFF]);
    assert_eq!(decode_b64("-_8=").unwrap(), vec![0xFB, 0xFF]);
    assert_eq!(decode_b64("AQ==").unwrap(), vec![1]);
    assert_eq!(decode_b64("").unwrap(), Vec::<u8>::new());
    assert_eq!(
        reason(decode_b64("+/8")),
        "Base64 decode failed: Invalid symbol 43, offset 0."
    );
    assert_eq!(
        reason(decode_b64("AB")),
        "Base64 decode failed: Invalid padding"
    );
    assert_eq!(
        reason(decode_b64("AB==")),
        "Base64 decode failed: Invalid last symbol 66, offset 1."
    );
    assert_eq!(
        reason(decode_b64("AQ=")),
        "Base64 decode failed: Invalid padding"
    );
    assert!(decode_b64("A").is_err());
}

#[test]
fn first_unreadable_text_is_reported() {
    let bad = |index: usize, at: usize| {
        if index == at {
            "!".to_string() + &"A".repeat(at)
        } else {
            "AQ".to_string()
        }
    };
    for at in 0..4 {
        let result = decrypt(&bad(3, at), &bad(0, at), &bad(1, at), &bad(2, at), &[]);
        assert_eq!(
            reason(result),
            "Base64 decode failed: Invalid symbol 33, offset 0."
        );
    }
    assert_eq!(
        reason(decrypt("?", "!", "AQ", "AQ", &[])),
        "Base64 decode failed: Invalid symbol 33, offset 0."
    );
}

#[test]
fn padding_of_records() {
    assert_eq!(remove_padding(vec![]), Vec::<u8>::new());
    assert_eq!(remove_padding(vec![9]), vec![9]);
    assert_eq!(remove_padding(vec![0, 0]), Vec::<u8>::new());
    assert_eq!(remove_padding(vec![0, 1, 7, 8]), vec![8]);
    assert_eq!(remove_padding(vec![0, 3, 7, 8]), vec![0, 3, 7, 8]);
    assert_eq!(remove_padding(vec![1, 0, 5]), vec![1, 0, 5]);
    let mut record = vec![1, 2];
    record.extend(vec![0u8; 258]);
    record.push(4);
    assert_eq!(remove_padding(record), vec![4]);
    assert_eq!(opened_message(Ok(vec![0, 0, 3])).unwrap(), vec![3]);
    assert_eq!(
        reason(opened_message(Err("why".to_string()))),
        "Decryption failed: why"
    );
    match crypto_error("a", "b") {
        Error::Crypto(text) => assert_eq!(text, "a: b"),
        _ => panic!("another error"),
    }
}

#[test]
fn keys_of_a_payload() {
    let context = encode_key_context(&[8; 65], &[9; 300]);
    assert_eq!(&context[..8], b"P-256\0\x00\x41");
    assert_eq!(&context[8..73], &[8u8; 65]);
    assert_eq!(&context[73..75], &[1, 44]);
    assert_eq!(&context[75..], &[9u8; 300]);
    let keys = derive_content_keys(&[1; 32], &[2; 16], &[3; 16], &context);
    let prk = expanded(&[2; 16], &[1; 32], b"Content-Encoding: auth\0", 32);
    assert_eq!(
        keys.key,
        expanded(&[3; 16], &prk, &info("aesgcm", &[8; 65], &[9; 300]), 16)
    );
    assert_eq!(
        keys.nonce,
        expanded(&[3; 16], &prk, &info("nonce", &[8; 65], &[9; 300]), 12)
    );
}
