//! The registration of a browser with FCM: a token, a key pair, and the subscription of the two.

use crate::checkin::CheckinResult;
use crate::crypto::public_key_of;
use crate::crypto::{
    field_bytes, is_secret_key, p256_point, p256_public_key, p256_shared_secret,
};
use crate::decrypt::{
    base64_bytes, base64_bytes_of_written, crypto_failure, decrypted, key_context, message_in,
    padding_is_removed, record_in, record_of,
};
use crate::encoding::url_safe_encode;
use crate::encoding::{base64, padded_base64, Alphabet};
use crate::error::{Error, ErrorView};
use crate::form::{append_pair, auth_header, no_pairs, FormRequest};
use crate::form::{device_authorization, pairs};
use crate::json::parse_json;
use crate::json::json_value;
use crate::random::{is_random_uuid, random_bytes, random_secret_key, random_uuid};
use crate::text::{
    concat, contains_text, decimal, decimal_text, has_text, prefix_is_dropped, second_field,
    second_field_of, text_contains_its_parts, without_prefix,
};
use vstd::prelude::*;

verus! {

/// Where tokens are asked for.
pub const REGISTER_URL: &'static str = "https://android.clients.google.com/c2dm/register3";

/// Where a token and a key pair are subscribed.
pub const FCM_SUBSCRIBE: &'static str = "https://fcm.googleapis.com/fcm/connect/subscribe";

/// The endpoint that senders push to, before its token.
pub const FCM_ENDPOINT: &'static str = "https://fcm.googleapis.com/fcm/send";

/// How often a refused request for a token is repeated.
pub const MAX_RETRIES: u32 = 5;

/// The pause before a refused request for a token is repeated, in seconds.
pub const RETRY_DELAY_SECONDS: u64 = 1;

/// The public key of the push service.
pub const SERVER_KEY: [u8; 65] = [
    0x04, 0x33, 0x94, 0xf7, 0xdf, 0xa1, 0xeb, 0xb1, 0xdc, 0x03, 0xa2, 0x5e, 0x15, 0x71, 0xdb, 0x48,
    0xd3, 0x2e, 0xed, 0xed, 0xb2, 0x34, 0xdb, 0xb7, 0x47, 0x3a, 0x0c, 0x8f, 0xc4, 0xcc, 0xe1, 0x6f,
    0x3c, 0x8c, 0x84, 0xdf, 0xab, 0xb6, 0x66, 0x3e, 0xf2, 0x0c, 0xd4, 0x8b, 0xfe, 0xe3, 0xf9, 0x76,
    0x2f, 0x14, 0x1c, 0x63, 0x08, 0x6a, 0x6f, 0x2d, 0xb1, 0x1a, 0x95, 0xb0, 0xce, 0x37, 0xc0, 0x9c,
    0x6e,
];

/// The keys of a receiver, each in URL-safe base64 without padding.
#[derive(Debug, Clone)]
pub struct Keys {
    /// A P-256 secret key.
    pub private_key: String,
    /// The public key that belongs to it, uncompressed.
    pub public_key: String,
    /// Sixteen bytes that senders must know.
    pub auth_secret: String,
}

/// What a registration came to.
#[derive(Debug, Clone)]
pub struct FcmRegistration {
    pub token: String,
    pub android_id: u64,
    pub security_token: u64,
    pub app_id: String,
    pub keys: Keys,
    /// What the push service answered to the subscription.
    pub fcm: serde_json::Value,
}

/// The application identifier that a UUID makes.
pub fn app_id_of(uuid: &str) -> (res: String)
    ensures
        res@ == "wp:receiver.push.com#"@ + uuid@,
{
    concat("wp:receiver.push.com#", uuid)
}

/// A new application identifier.
pub fn new_app_id() -> (res: String)
    ensures
        "wp:receiver.push.com#"@.is_prefix_of(res@),
        is_random_uuid(res@.skip("wp:receiver.push.com#"@.len() as int)),
{
    let uuid = random_uuid();
    let app_id = app_id_of(uuid.as_str());
    assert(app_id@.skip("wp:receiver.push.com#"@.len() as int) =~= uuid@);
    assert("wp:receiver.push.com#"@ =~= app_id@.subrange(0, "wp:receiver.push.com#"@.len() as int));
    app_id
}

/// The request for a token.
pub fn token_request(app_id: &str, checkin: &CheckinResult) -> (res: FormRequest)
    ensures
        res.url@ == REGISTER_URL@,
        res.authorization matches Some(header) && header@ == device_authorization(
            checkin.android_id,
            checkin.security_token,
        ),
        pairs(res.form@) == seq![
            ("app"@, "org.chromium.linux"@),
            ("X-subtype"@, app_id@),
            ("device"@, decimal(checkin.android_id as nat)),
            ("sender"@, base64(SERVER_KEY@, Alphabet::UrlSafe)),
        ],
{
    let server_key = SERVER_KEY;
    let mut form = no_pairs();
    append_pair(&mut form, "app", "org.chromium.linux");
    append_pair(&mut form, "X-subtype", app_id);
    append_pair(&mut form, "device", decimal_text(checkin.android_id).as_str());
    append_pair(&mut form, "sender", url_safe_encode(server_key.as_slice()).as_str());
    FormRequest {
        url: REGISTER_URL.to_owned(),
        authorization: Some(auth_header(checkin.android_id, checkin.security_token)),
        form,
    }
}

/// What the answer to a request for a token leads to.
#[derive(Debug)]
pub enum Attempt {
    /// The token.
    Token(String),
    /// The request is to be repeated, as this many-th retry.
    Retry(u32),
    /// There will be no token.
    Failed(Error),
    /// There will be no token, for the reason that the status of the answer gives.
    BadStatus,
}

/// Whether an answer reports an error.
pub open spec fn is_refusal(reply: Seq<char>) -> bool {
    contains_text(reply, "Error"@)
}

/// An answer is a refusal exactly where the word `Error` stands somewhere in it.
pub proof fn refusal_holds_the_word_error(reply: Seq<char>)
    ensures
        forall|before: Seq<char>, behind: Seq<char>|
            reply == #[trigger] (before + "Error"@ + behind) ==> is_refusal(reply),
        is_refusal(reply) ==> exists|before: Seq<char>, behind: Seq<char>|
            reply == #[trigger] (before + "Error"@ + behind),
{
    text_contains_its_parts(reply, "Error"@);
}

/// What a refusal leads to: the request is repeated up to `MAX_RETRIES` times.
pub open spec fn refusal_leads_to(retry: u32, attempt: Attempt) -> bool {
    if retry >= MAX_RETRIES {
        attempt matches Attempt::Failed(error) && error@ == ErrorView::Registration(
            "GCM register has failed"@,
        )
    } else {
        attempt == Attempt::Retry((retry + 1) as u32)
    }
}

/// Whether `attempt` says that the answer holds no token.
pub open spec fn is_format_failure(attempt: Attempt) -> bool {
    attempt matches Attempt::Failed(error) && error@ == ErrorView::Registration(
        "Invalid token format"@,
    )
}

/// A refused request is repeated up to five times, with the count going up by one, and then fails.
pub proof fn refusals_count_up_and_fail(retry: u32, attempt: Attempt)
    requires
        refusal_leads_to(retry, attempt),
    ensures
        retry < 5 ==> (attempt matches Attempt::Retry(next) && next == retry + 1),
        retry >= 5 ==> (attempt matches Attempt::Failed(error) && error@ == ErrorView::Registration(
            "GCM register has failed"@,
        )),
{
}

/// Decides what a refusal leads to.
pub fn refused(retry: u32) -> (res: Attempt)
    ensures
        refusal_leads_to(retry, res),
{
    if retry >= MAX_RETRIES {
        Attempt::Failed(Error::Registration("GCM register has failed".to_owned()))
    } else {
        Attempt::Retry(retry + 1)
    }
}

/// Decides what the answer to the `retry`-th repetition of a request for a token leads to, where
/// `success` tells what its status is. A refusal is one whatever the status. The token stands behind
/// the first `=`, and must not be empty.
pub fn token_attempt(reply: &str, retry: u32, success: bool) -> (res: Attempt)
    ensures
        if is_refusal(reply@) {
            refusal_leads_to(retry, res)
        } else if !success {
            res == Attempt::BadStatus
        } else if second_field(reply@, '=') matches Some(token) && token.len() > 0 {
            res matches Attempt::Token(token) && second_field(reply@, '=') == Some(token@)
        } else {
            is_format_failure(res)
        },
        contains_text(reply@, "Error"@) && retry < 5 ==> (res matches Attempt::Retry(next) && next
            == retry + 1),
        contains_text(reply@, "Error"@) && retry >= 5 ==> (res matches Attempt::Failed(error)
            && error@ == ErrorView::Registration("GCM register has failed"@)),
        !contains_text(reply@, "Error"@) && success && (second_field(reply@, '=') is None
            || second_field(reply@, '=')->0.len() == 0) ==> (res matches Attempt::Failed(error)
            && error@ == ErrorView::Registration("Invalid token format"@)),
{
    if has_text(reply, "Error") {
        return refused(retry);
    }
    if !success {
        return Attempt::BadStatus;
    }
    match second_field_of(reply, '=') {
        Some(token) => if token.as_str().is_empty() {
            Attempt::Failed(Error::Registration("Invalid token format".to_owned()))
        } else {
            Attempt::Token(token)
        },
        None => Attempt::Failed(Error::Registration("Invalid token format".to_owned())),
    }
}

/// How many of `replies` are read before there is a token or none will come, where the first is the
/// answer to the `retry`-th repetition.
pub open spec fn replies_read(replies: Seq<Seq<char>>, retry: nat) -> nat
    decreases replies.len(),
{
    if replies.len() == 0 {
        0
    } else if is_refusal(replies[0]) && retry < MAX_RETRIES {
        1 + replies_read(replies.skip(1), retry + 1)
    } else {
        1
    }
}

/// How many answers are read at most, where the first is the answer to the `retry`-th repetition.
pub open spec fn most_replies(retry: nat) -> nat {
    if retry < MAX_RETRIES {
        (MAX_RETRIES + 1 - retry) as nat
    } else {
        1
    }
}

/// A token is asked for at most six times, and exactly so often, or as often as there are answers,
/// where all of them are refusals.
pub proof fn registration_ends(replies: Seq<Seq<char>>, retry: nat)
    ensures
        replies_read(replies, retry) <= most_replies(retry),
        (forall|i: int| 0 <= i < replies.len() ==> is_refusal(#[trigger] replies[i]))
            ==> replies_read(replies, retry) == if replies.len() < most_replies(retry) {
            replies.len()
        } else {
            most_replies(retry)
        },
    decreases replies.len(),
{
    if replies.len() > 0 {
        let rest = replies.skip(1);
        registration_ends(rest, retry + 1);
        if forall|i: int| 0 <= i < replies.len() ==> is_refusal(#[trigger] replies[i]) {
            assert forall|i: int| 0 <= i < rest.len() implies is_refusal(#[trigger] rest[i]) by {
                assert(rest[i] == replies[i + 1]);
            }
            assert(is_refusal(replies[0]));
        }
    }
}

/// An answer that is no refusal is the last that is read, unless refusals ended the attempts before.
pub proof fn first_answer_that_is_no_refusal_is_the_last(
    replies: Seq<Seq<char>>,
    retry: nat,
    refusals: nat,
)
    requires
        refusals < replies.len(),
        forall|i: int| 0 <= i < refusals ==> is_refusal(#[trigger] replies[i]),
        !is_refusal(replies[refusals as int]),
    ensures
        replies_read(replies, retry) == if refusals < most_replies(retry) {
            refusals + 1
        } else {
            most_replies(retry)
        },
    decreases refusals,
{
    if refusals > 0 {
        let rest = replies.skip(1);
        assert(is_refusal(replies[0]));
        assert forall|i: int| 0 <= i < refusals - 1 implies is_refusal(#[trigger] rest[i]) by {
            assert(rest[i] == replies[i + 1]);
        }
        first_answer_that_is_no_refusal_is_the_last(rest, retry + 1, (refusals - 1) as nat);
    }
}

/// Writes out the keys of a receiver.
pub fn encode_keys(secret_key: &[u8], public_key: &[u8], auth_secret: &[u8]) -> (res: Keys)
    requires
        secret_key@.len() <= usize::MAX / 4,
        public_key@.len() <= usize::MAX / 4,
        auth_secret@.len() <= usize::MAX / 4,
    ensures
        res.private_key@ == base64(secret_key@, Alphabet::UrlSafe),
        res.public_key@ == base64(public_key@, Alphabet::UrlSafe),
        res.auth_secret@ == base64(auth_secret@, Alphabet::UrlSafe),
{
    Keys {
        private_key: url_safe_encode(secret_key),
        public_key: url_safe_encode(public_key),
        auth_secret: url_safe_encode(auth_secret),
    }
}

impl Keys {
    /// Whether these are the keys of a receiver: a secret key, the public key that belongs to it,
    /// which is an uncompressed point, and an authentication secret of sixteen bytes.
    pub open spec fn belong_together(self) -> bool {
        &&& base64_bytes(self.private_key@) matches Some(secret)
        &&& base64_bytes(self.public_key@) matches Some(public)
        &&& base64_bytes(self.auth_secret@) matches Some(auth)
        &&& is_secret_key(secret)
        &&& secret.len() == 32
        &&& public == p256_public_key(secret)
        &&& public.len() == 65
        &&& public[0] == 4
        &&& p256_point(public) == Some(public)
        &&& auth.len() == 16
        &&& self.private_key@ == base64(secret, Alphabet::UrlSafe)
        &&& self.public_key@ == base64(public, Alphabet::UrlSafe)
        &&& self.auth_secret@ == base64(auth, Alphabet::UrlSafe)
    }
}

/// Draws the keys of a new receiver.
pub fn generate_keys() -> (res: Keys)
    ensures
        res.belong_together(),
        ({
            &&& base64_bytes(res.private_key@) matches Some(secret)
            &&& base64_bytes(res.public_key@) matches Some(public)
            &&& base64_bytes(res.auth_secret@) matches Some(auth)
            &&& is_secret_key(secret)
            &&& secret.len() == 32
            &&& public == p256_public_key(secret)
            &&& public.len() == 65
            &&& public[0] == 4
            &&& p256_point(public) == Some(public)
            &&& auth.len() == 16
            &&& res.private_key@ == base64(secret, Alphabet::UrlSafe)
            &&& res.public_key@ == base64(public, Alphabet::UrlSafe)
            &&& res.auth_secret@ == base64(auth, Alphabet::UrlSafe)
        }),
{
    let secret = random_secret_key();
    let public = public_key_of(secret.as_slice());
    let auth = random_bytes(16);
    proof {
        base64_bytes_of_written(secret@);
        base64_bytes_of_written(public@);
        base64_bytes_of_written(auth@);
    }
    encode_keys(secret.as_slice(), public.as_slice(), auth.as_slice())
}

/// The keys of a receiver never are why decryption fails: with a salt and a sender's key that can be
/// read, all depends on whether the payload was sealed for them.
pub proof fn own_keys_are_usable(
    keys: Keys,
    crypto_key: Seq<char>,
    salt: Seq<char>,
    raw_data: Seq<u8>,
)
    requires
        keys.belong_together(),
        base64_bytes(without_prefix(salt, "salt="@)) is Some,
        base64_bytes(without_prefix(crypto_key, "dh="@)) matches Some(sender) && p256_point(sender)
            is Some,
    ensures
        ({
            let secret = base64_bytes(keys.private_key@)->0;
            let public = base64_bytes(keys.public_key@)->0;
            let auth = base64_bytes(keys.auth_secret@)->0;
            let salt_bytes = base64_bytes(without_prefix(salt, "salt="@))->0;
            let sender = base64_bytes(without_prefix(crypto_key, "dh="@))->0;
            decrypted(crypto_key, salt, keys.auth_secret@, keys.private_key@, raw_data)
                == match record_in(
                p256_shared_secret(secret, p256_point(sender)->0),
                auth,
                salt_bytes,
                key_context(public, sender),
                raw_data,
            ) {
                Some(record) => Ok::<Seq<u8>, ErrorView>(message_in(record)),
                None => Err(crypto_failure("Decryption failed"@, "aead::Error"@)),
            }
        }),
{
    let secret = base64_bytes(keys.private_key@)->0;
    assert(field_bytes(secret) =~= secret);
}

/// A message that was sealed for a receiver is decrypted: where the payload is the record of a
/// message, sealed with the receiver's public key and authentication secret, a salt and the key of a
/// sender, and the headers name that salt and that key, the message comes out.
pub proof fn message_for_own_keys_is_decrypted(
    keys: Keys,
    sender: Seq<u8>,
    salt: Seq<u8>,
    raw_data: Seq<u8>,
    padding: Seq<u8>,
    message: Seq<u8>,
)
    requires
        keys.belong_together(),
        p256_point(sender) is Some,
        padding.len() < 65536,
        record_in(
            p256_shared_secret(base64_bytes(keys.private_key@)->0, p256_point(sender)->0),
            base64_bytes(keys.auth_secret@)->0,
            salt,
            key_context(base64_bytes(keys.public_key@)->0, sender),
            raw_data,
        ) == Some(record_of(padding, message)),
    ensures
        decrypted(
            "dh="@ + base64(sender, Alphabet::UrlSafe),
            "salt="@ + base64(salt, Alphabet::UrlSafe),
            keys.auth_secret@,
            keys.private_key@,
            raw_data,
        ) == Ok::<Seq<u8>, ErrorView>(message),
        decrypted(
            "dh="@ + padded_base64(sender, Alphabet::UrlSafe),
            "salt="@ + padded_base64(salt, Alphabet::UrlSafe),
            keys.auth_secret@,
            keys.private_key@,
            raw_data,
        ) == Ok::<Seq<u8>, ErrorView>(message),
{
    base64_bytes_of_written(sender);
    base64_bytes_of_written(salt);
    padding_is_removed(padding, message);
    let sender_text = base64(sender, Alphabet::UrlSafe);
    let salt_text = base64(salt, Alphabet::UrlSafe);
    prefix_is_dropped("dh="@, sender_text);
    prefix_is_dropped("salt="@, salt_text);
    own_keys_are_usable(keys, "dh="@ + sender_text, "salt="@ + salt_text, raw_data);
    let padded_sender = padded_base64(sender, Alphabet::UrlSafe);
    let padded_salt = padded_base64(salt, Alphabet::UrlSafe);
    prefix_is_dropped("dh="@, padded_sender);
    prefix_is_dropped("salt="@, padded_salt);
    own_keys_are_usable(keys, "dh="@ + padded_sender, "salt="@ + padded_salt, raw_data);
}

/// The request that subscribes a token and the keys of a receiver.
pub fn subscribe_request(sender_id: &str, token: &str, keys: &Keys) -> (res: FormRequest)
    ensures
        res.url@ == FCM_SUBSCRIBE@,
        res.authorization is None,
        pairs(res.form@) == seq![
            ("authorized_entity"@, sender_id@),
            ("endpoint"@, FCM_ENDPOINT@ + "/"@ + token@),
            ("encryption_key"@, keys.public_key@),
            ("encryption_auth"@, keys.auth_secret@),
        ],
{
    let endpoint = concat(concat(FCM_ENDPOINT, "/").as_str(), token);
    let mut form = no_pairs();
    append_pair(&mut form, "authorized_entity", sender_id);
    append_pair(&mut form, "endpoint", endpoint.as_str());
    append_pair(&mut form, "encryption_key", keys.public_key.as_str());
    append_pair(&mut form, "encryption_auth", keys.auth_secret.as_str());
    FormRequest { url: FCM_SUBSCRIBE.to_owned(), authorization: None, form }
}

/// What a registration came to, once the answer to the subscription was read or refused.
pub fn registration_of(
    token: String,
    checkin: &CheckinResult,
    app_id: String,
    keys: Keys,
    fcm: Result<serde_json::Value, String>,
) -> (res: Result<FcmRegistration, Error>)
    ensures
        match fcm {
            Ok(value) => res == Ok::<FcmRegistration, Error>(
                FcmRegistration {
                    token,
                    android_id: checkin.android_id,
                    security_token: checkin.security_token,
                    app_id,
                    keys,
                    fcm: value,
                },
            ),
            Err(reason) => res matches Err(error) && error@ == ErrorView::Registration(
                "Invalid FCM json: "@ + reason@,
            ),
        },
{
    match fcm {
        Ok(value) => Ok(
            FcmRegistration {
                token,
                android_id: checkin.android_id,
                security_token: checkin.security_token,
                app_id,
                keys,
                fcm: value,
            },
        ),
        Err(reason) => Err(
            Error::Registration(concat("Invalid FCM json: ", reason.as_str())),
        ),
    }
}

/// Completes a registration with the answer to the subscription, which must be JSON.
pub fn complete_registration(
    token: String,
    checkin: &CheckinResult,
    app_id: String,
    keys: Keys,
    fcm_reply: &str,
) -> (res: Result<FcmRegistration, Error>)
    ensures
        match json_value(fcm_reply@) {
            Ok(value) => res == Ok::<FcmRegistration, Error>(
                FcmRegistration {
                    token,
                    android_id: checkin.android_id,
                    security_token: checkin.security_token,
                    app_id,
                    keys,
                    fcm: value,
                },
            ),
            Err(reason) => res matches Err(error) && error@ == ErrorView::Registration(
                "Invalid FCM json: "@ + reason,
            ),
        },
{
    registration_of(token, checkin, app_id, keys, parse_json(fcm_reply))
}

} // verus!
