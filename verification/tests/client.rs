use push_receiver::client::{
    after_disconnect, app_data_value, decode_encrypted_payload, decode_payload,
    existing_registration, forward, is_duplicate, notification_of, PayloadMode,
};
use push_receiver::proto::{AppData, DataMessageStanza};
use push_receiver::register::Keys;

fn entry(key: &str, value: &str) -> AppData {
    AppData {
        key: key.to_string(),
        value: value.to_string(),
    }
}

fn with_id(id: &str) -> DataMessageStanza {
    DataMessageStanza {
        persistent_id: Some(id.to_string()),
        raw_data: Some(vec![1, 2, 3]),
        sent: Some(77),
        app_data: vec![entry("a", "b")],
        ..DataMessageStanza::default()
    }
}

fn no_keys() -> Keys {
    Keys {
        private_key: String::new(),
        public_key: String::new(),
        auth_secret: String::new(),
    }
}

#[test]
fn forwards_app_data_only_android_message() {
    let message = DataMessageStanza {
        from: "sender".to_string(),
        category: "package".to_string(),
        app_data: vec![AppData {
            key: "body".to_string(),
            value: r#"{"type":"server"}"#.to_string(),
        }],
        ..DataMessageStanza::default()
    };

    assert_eq!(
        decode_payload(&message, &PayloadMode::Raw),
        Some(Vec::new())
    );
}

#[test]
fn raw_mode_forwards_raw_data() {
    assert_eq!(
        decode_payload(&with_id("x"), &PayloadMode::Raw),
        Some(vec![1, 2, 3])
    );
}

#[test]
fn decrypt_mode_needs_raw_data() {
    let message = DataMessageStanza::default();
    assert_eq!(
        decode_payload(&message, &PayloadMode::Decrypt(no_keys())),
        None
    );
}

#[test]
fn message_without_metadata_is_not_encrypted() {
    let message = DataMessageStanza {
        raw_data: Some(vec![9, 8]),
        ..DataMessageStanza::default()
    };
    assert_eq!(
        decode_payload(&message, &PayloadMode::Decrypt(no_keys())),
        Some(vec![9, 8])
    );
}

#[test]
fn encrypted_message_needs_key_and_salt() {
    let mut message = with_id("x");
    message.app_data = vec![entry("encryption", "salt=AA")];
    assert_eq!(decode_encrypted_payload(&message, &[1], &no_keys()), None);
    message.app_data = vec![entry("crypto-key", "dh=AA")];
    assert_eq!(decode_encrypted_payload(&message, &[1], &no_keys()), None);
    message.app_data.push(entry("encryption", "salt=AA"));
    assert_eq!(decode_encrypted_payload(&message, &[1], &no_keys()), None);
}

#[test]
fn first_entry_of_a_key_counts() {
    let mut message = with_id("x");
    message.app_data = vec![entry("k", "1"), entry("l", "2"), entry("k", "3")];
    assert_eq!(app_data_value(&message, "k"), Some("1"));
    assert_eq!(app_data_value(&message, "l"), Some("2"));
    assert_eq!(app_data_value(&message, "m"), None);
}

#[test]
fn duplicates_are_recognised_and_remembered() {
    let mut ids = vec!["old".to_string()];
    assert!(is_duplicate(&with_id("old"), &mut ids));
    assert!(!is_duplicate(&with_id("new"), &mut ids));
    assert!(is_duplicate(&with_id("new"), &mut ids));
    assert!(!is_duplicate(&DataMessageStanza::default(), &mut ids));
    assert!(!is_duplicate(&DataMessageStanza::default(), &mut ids));
    assert_eq!(ids, vec!["old".to_string(), "new".to_string()]);
}

#[test]
fn each_message_is_forwarded_once() {
    let mut ids = Vec::new();
    let first = forward(with_id("x"), &mut ids, &PayloadMode::Raw).unwrap();
    assert_eq!(first.decrypted, vec![1, 2, 3]);
    assert_eq!(first.persistent_id, Some("x".to_string()));
    assert_eq!(first.sent, Some(77));
    assert_eq!(first.app_data.len(), 1);
    assert_eq!(first.app_data[0].key, "a");
    assert_eq!(first.app_data[0].value, "b");
    assert!(forward(with_id("x"), &mut ids, &PayloadMode::Raw).is_none());
    assert!(forward(with_id("y"), &mut ids, &PayloadMode::Raw).is_some());
}

#[test]
fn notification_holds_what_the_message_holds() {
    let notification = notification_of(with_id("x"), &PayloadMode::Raw).unwrap();
    assert_eq!(notification.decrypted, vec![1, 2, 3]);
    assert_eq!(notification.persistent_id, Some("x".to_string()));
    assert_eq!(notification.sent, Some(77));
    assert!(notification_of(with_id("x"), &PayloadMode::Decrypt(no_keys())).is_none());
}

#[test]
fn undecodable_message_is_remembered_and_dropped() {
    let mut ids = Vec::new();
    let mode = PayloadMode::Decrypt(no_keys());
    assert!(forward(with_id("x"), &mut ids, &mode).is_none());
    assert_eq!(ids, vec!["x".to_string()]);
}

#[test]
fn debug_text_keeps_keys_to_itself() {
    let keys = Keys {
        private_key: "hush".to_string(),
        public_key: "hush".to_string(),
        auth_secret: "hush".to_string(),
    };
    assert_eq!(
        PayloadMode::Decrypt(keys).debug_text(),
        "Decrypt(\"<redacted>\")"
    );
    assert_eq!(PayloadMode::Raw.debug_text(), "Raw");
}

#[test]
fn existing_identity_has_no_token() {
    let registration = existing_registration(5, 6);
    assert_eq!(registration.android_id, 5);
    assert_eq!(registration.security_token, 6);
    assert_eq!(registration.token, "");
    assert_eq!(registration.app_id, "");
    assert_eq!(registration.keys.private_key, "");
    assert_eq!(registration.keys.public_key, "");
    assert_eq!(registration.keys.auth_secret, "");
    assert!(registration.fcm.is_null());
}

#[test]
fn pauses_grow_to_fifteen_seconds() {
    let mut count = 0;
    let mut pauses = Vec::new();
    for _ in 0..17 {
        let next = after_disconnect(count, false).unwrap();
        count = next.retry_count;
        pauses.push(next.delay_seconds);
    }
    assert_eq!(
        pauses,
        vec![1, 2, 3, 4, 5, 6, 7, 8, 9, 10, 11, 12, 13, 14, 15, 15, 15]
    );
    assert_eq!(after_disconnect(u64::MAX, false).unwrap().retry_count, u64::MAX);
    assert!(after_disconnect(3, true).is_none());
}
