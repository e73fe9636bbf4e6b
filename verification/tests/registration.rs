use base64::engine::general_purpose::{STANDARD_NO_PAD, URL_SAFE_NO_PAD};
use base64::Engine;
use push_receiver::android_fcm::{AuthToken, InstallResponse};
use push_receiver::checkin::{checkin_request, checkin_result, CheckinResult};
use push_receiver::error::Error;
use push_receiver::proto::AndroidCheckinResponse;
use push_receiver::register::{
    app_id_of, complete_registration, encode_keys, generate_keys, new_app_id, registration_of,
    subscribe_request, token_attempt, token_request, Attempt,
};
use push_receiver::text::{decimal_text, has_text, hexadecimal_text, signed_decimal_text};
use push_receiver::AndroidFcm;

fn identity() -> CheckinResult {
    CheckinResult {
        android_id: 123,
        security_token: 456,
    }
}

fn field(form: &[(String, String)], name: &str) -> String {
    form.iter()
        .find(|pair| pair.0 == name)
        .map(|pair| pair.1.clone())
        .unwrap()
}

fn failed(attempt: Attempt) -> String {
    match attempt {
        Attempt::Failed(Error::Registration(text)) => text,
        _ => panic!("no failure"),
    }
}

#[test]
fn checkin_request_of_a_browser() {
    let request = checkin_request(None, None);
    assert_eq!(request.id, None);
    assert_eq!(request.security_token, None);
    assert_eq!(request.version, Some(3));
    assert_eq!(request.user_serial_number, Some(0));
    assert_eq!(request.checkin.device_type, Some(3));
    assert_eq!(request.checkin.last_checkin_msec, None);
    let build = request.checkin.chrome_build.unwrap();
    assert_eq!(build.platform, Some(2));
    assert_eq!(build.channel, Some(1));
    assert_eq!(build.chrome_version, Some("63.0.3234.0".to_string()));
    let again = checkin_request(Some(u64::MAX), Some(9));
    assert_eq!(again.id, Some(-1));
    assert_eq!(again.security_token, Some(9));
}

#[test]
fn missing_identity_counts_as_zero() {
    let result = checkin_result(&AndroidCheckinResponse {
        android_id: Some(4),
        security_token: None,
    });
    assert_eq!(result.android_id, 4);
    assert_eq!(result.security_token, 0);
}

#[test]
fn token_request_of_a_browser() {
    let request = token_request("wp:x", &identity());
    assert_eq!(
        request.url,
        "https://android.clients.google.com/c2dm/register3"
    );
    assert_eq!(request.authorization, Some("AidLogin 123:456".to_string()));
    assert_eq!(request.form.len(), 4);
    assert_eq!(field(&request.form, "app"), "org.chromium.linux");
    assert_eq!(field(&request.form, "X-subtype"), "wp:x");
    assert_eq!(field(&request.form, "device"), "123");
    assert_eq!(
        field(&request.form, "sender"),
        "BDOU99-h67HcA6JeFXHbSNMu7e2yNNu3RzoMj8TM4W88jITfq7ZmPvIM1Iv-4_l2LxQcYwhqby2xGpWwzjfAnG4"
    );
}

#[test]
fn answers_to_a_browser() {
    assert!(matches!(token_attempt("token=abc:d", 0, true), Attempt::Token(t) if t == "abc:d"));
    assert!(matches!(token_attempt("token=a=b", 5, true), Attempt::Token(t) if t == "a"));
    assert_eq!(failed(token_attempt("token=", 0, true)), "Invalid token format");
    assert_eq!(failed(token_attempt("token", 0, true)), "Invalid token format");
    assert_eq!(failed(token_attempt("a==b", 0, true)), "Invalid token format");
    assert!(matches!(token_attempt("Error=PHONE", 0, true), Attempt::Retry(1)));
    assert!(matches!(token_attempt("xErrorx", 4, true), Attempt::Retry(5)));
    assert_eq!(
        failed(token_attempt("Error=PHONE", 5, true)),
        "GCM register has failed"
    );
    assert!(matches!(token_attempt("Erro=r", 0, true), Attempt::Token(t) if t == "r"));
}

#[test]
fn answers_with_a_bad_status() {
    assert!(matches!(token_attempt("token=abc", 0, false), Attempt::BadStatus));
    assert!(matches!(token_attempt("<html>", 3, false), Attempt::BadStatus));
    assert!(matches!(token_attempt("Error=PHONE", 0, false), Attempt::Retry(1)));
    assert_eq!(
        failed(token_attempt("Error=PHONE", 5, false)),
        "GCM register has failed"
    );
    assert!(matches!(
        AndroidFcm::token_attempt("token=abc", 0, false),
        Attempt::BadStatus
    ));
    assert!(matches!(
        AndroidFcm::token_attempt("Error", 4, false),
        Attempt::Retry(5)
    ));
}

#[test]
fn answers_to_an_application() {
    assert!(matches!(AndroidFcm::token_attempt("token=abc", 0, true), Attempt::Token(t) if t == "abc"));
    assert!(matches!(AndroidFcm::token_attempt("token=", 0, true), Attempt::Token(t) if t.is_empty()));
    assert_eq!(
        failed(AndroidFcm::token_attempt("token", 0, true)),
        "Invalid token format"
    );
    assert!(matches!(
        AndroidFcm::token_attempt("Error", 2, true),
        Attempt::Retry(3)
    ));
    assert_eq!(
        failed(AndroidFcm::token_attempt("Error", 5, true)),
        "GCM register has failed"
    );
}

#[test]
fn token_is_asked_for_six_times() {
    let mut retry = 0;
    let mut asked = 0;
    loop {
        asked += 1;
        match token_attempt("Error", retry, true) {
            Attempt::Retry(next) => retry = next,
            _ => break,
        }
    }
    assert_eq!(asked, 6);
}

#[test]
fn generated_keys_belong_together() {
    let keys = generate_keys();
    let secret = URL_SAFE_NO_PAD.decode(&keys.private_key).unwrap();
    let public = URL_SAFE_NO_PAD.decode(&keys.public_key).unwrap();
    assert_eq!(secret.len(), 32);
    assert_eq!(public.len(), 65);
    assert_eq!(public[0], 4);
    assert_eq!(URL_SAFE_NO_PAD.decode(&keys.auth_secret).unwrap().len(), 16);
    let key = p256::SecretKey::from_slice(&secret).unwrap();
    let point = p256::PublicKey::from_sec1_bytes(&public).unwrap();
    assert_eq!(key.public_key(), point);
    assert_ne!(generate_keys().private_key, keys.private_key);
}

#[test]
fn keys_are_written_in_base64() {
    let keys = encode_keys(&[0xFB, 0xFF], &[1], &[]);
    assert_eq!(keys.private_key, "-_8");
    assert_eq!(keys.public_key, "AQ");
    assert_eq!(keys.auth_secret, "");
}

#[test]
fn subscription() {
    let keys = encode_keys(&[1], &[2], &[3]);
    let request = subscribe_request("42", "tok", &keys);
    assert_eq!(
        request.url,
        "https://fcm.googleapis.com/fcm/connect/subscribe"
    );
    assert_eq!(request.authorization, None);
    assert_eq!(
        request.form,
        vec![
            ("authorized_entity".to_string(), "42".to_string()),
            (
                "endpoint".to_string(),
                "https://fcm.googleapis.com/fcm/send/tok".to_string()
            ),
            ("encryption_key".to_string(), "Ag".to_string()),
            ("encryption_auth".to_string(), "Aw".to_string()),
        ]
    );
}

#[test]
fn application_identifiers() {
    assert_eq!(app_id_of("u"), "wp:receiver.push.com#u");
    let id = new_app_id();
    let uuid = id.strip_prefix("wp:receiver.push.com#").unwrap();
    assert_eq!(uuid::Uuid::parse_str(uuid).unwrap().to_string(), uuid);
    assert_eq!(uuid.as_bytes()[14], b'4');
    assert_ne!(new_app_id(), id);
}

#[test]
fn completed_registration() {
    let keys = encode_keys(&[1], &[2], &[3]);
    let done = complete_registration(
        "tok".to_string(),
        &identity(),
        "app".to_string(),
        keys.clone(),
        "{\"token\": [1, null]}",
    )
    .unwrap();
    assert_eq!(done.token, "tok");
    assert_eq!(done.android_id, 123);
    assert_eq!(done.security_token, 456);
    assert_eq!(done.app_id, "app");
    assert_eq!(done.keys.public_key, "Ag");
    assert_eq!(done.fcm.to_string(), "{\"token\":[1,null]}");
    assert_eq!(done.clone().fcm, done.fcm);
    match complete_registration(
        "tok".to_string(),
        &identity(),
        "app".to_string(),
        keys.clone(),
        "<html>",
    ) {
        Err(Error::Registration(text)) => {
            assert_eq!(
                text,
                "Invalid FCM json: expected value at line 1 column 1"
            );
        }
        _ => panic!("read as JSON"),
    }
    match registration_of(
        "tok".to_string(),
        &identity(),
        "app".to_string(),
        keys,
        Err("why".to_string()),
    ) {
        Err(Error::Registration(text)) => assert_eq!(text, "Invalid FCM json: why"),
        _ => panic!("no failure"),
    }
}

#[test]
fn installation_identifiers() {
    let mut bytes = vec![0u8; 17];
    bytes[0] = 0xFF;
    assert_eq!(AndroidFcm::fid_of(bytes), "fwAAAAAAAAAAAAAAAAAAAAA");
    assert_eq!(
        AndroidFcm::fid_of(vec![0xA3; 17]),
        "c6Ojo6Ojo6Ojo6Ojo6Ojo6M"
    );
    let fid = AndroidFcm::generate_firebase_fid();
    assert_eq!(fid.len(), 23);
    let bytes = STANDARD_NO_PAD.decode(&fid).unwrap();
    assert_eq!(bytes.len(), 17);
    assert_eq!(bytes[0] >> 4, 7);
    assert!(('c'..='f').contains(&fid.chars().next().unwrap()));
    assert_ne!(AndroidFcm::generate_firebase_fid(), fid);
}

#[test]
fn installation_request() {
    assert_eq!(
        AndroidFcm::install_url("proj"),
        "https://firebaseinstallations.googleapis.com/v1/projects/proj/installations"
    );
    let body = AndroidFcm::install_body("fid".to_string(), "app");
    assert_eq!(body.fid, "fid");
    assert_eq!(body.app_id, "app");
    assert_eq!(body.auth_version, "FIS_v2");
    assert_eq!(body.sdk_version, "a:17.0.0");
    let headers = AndroidFcm::install_headers("key", "pkg", "cert");
    assert_eq!(headers.len(), 7);
    assert_eq!(field(&headers, "X-Android-Package"), "pkg");
    assert_eq!(field(&headers, "X-Android-Cert"), "cert");
    assert_eq!(field(&headers, "x-goog-api-key"), "key");
    assert_eq!(field(&headers, "x-firebase-client-log-type"), "3");
}

#[test]
fn installation_tokens() {
    let token = AndroidFcm::installation_token(InstallResponse {
        auth_token: Some(AuthToken {
            token: Some("t".to_string()),
        }),
    });
    assert_eq!(token.unwrap(), "t");
    for auth_token in [None, Some(AuthToken { token: None })] {
        match AndroidFcm::installation_token(InstallResponse { auth_token }) {
            Err(Error::Registration(text)) => {
                assert_eq!(text, "Failed to get Firebase installation AuthToken");
            }
            _ => panic!("a token"),
        }
    }
}

#[test]
fn token_request_of_an_application() {
    let request = AndroidFcm::token_request(&identity(), "inst", "42", "gms", "pkg", "cert");
    assert_eq!(
        request.url,
        "https://android.clients.google.com/c2dm/register3"
    );
    assert_eq!(request.authorization, Some("AidLogin 123:456".to_string()));
    assert_eq!(request.form.len(), 17);
    assert_eq!(request.form[0], ("device".to_string(), "123".to_string()));
    assert_eq!(request.form[16], ("sender".to_string(), "42".to_string()));
    assert_eq!(field(&request.form, "app"), "pkg");
    assert_eq!(field(&request.form, "cert"), "cert");
    assert_eq!(
        field(&request.form, "X-Goog-Firebase-Installations-Auth"),
        "inst"
    );
    assert_eq!(field(&request.form, "X-gms_app_id"), "gms");
    assert_eq!(field(&request.form, "X-subtype"), "42");
    let done = AndroidFcm::registration_of(&identity(), "tok".to_string());
    assert_eq!(done.gcm.android_id, 123);
    assert_eq!(done.gcm.security_token, 456);
    assert_eq!(done.fcm.token, "tok");
}

#[test]
fn numbers_as_text() {
    for n in [0u64, 9, 10, 15, 16, 255, 1_000_000, u64::MAX] {
        assert_eq!(decimal_text(n), format!("{n}"));
        assert_eq!(hexadecimal_text(n), format!("{n:x}"));
    }
    for n in [0i64, -1, 7, i64::MIN, i64::MAX] {
        assert_eq!(signed_decimal_text(n), format!("{n}"));
    }
}

#[test]
fn search_in_text() {
    assert!(has_text("abc", "bc"));
    assert!(has_text("abc", ""));
    assert!(has_text("", ""));
    assert!(!has_text("abc", "cb"));
    assert!(!has_text("ab", "abc"));
    assert!(has_text("\u{e4}Error", "Error"));
}
