//! The registration of an Android application with FCM, by way of a Firebase installation.

use crate::checkin::CheckinResult;
use crate::encoding::standard_encode;
use crate::encoding::{base64, base64_len, sextet, symbol, Alphabet};
use crate::error::{Error, ErrorView};
use crate::form::{append_pair, auth_header, no_pairs, FormRequest};
use crate::form::{device_authorization, pairs};
use crate::random::random_bytes;
use crate::register::{is_format_failure, is_refusal, refusal_leads_to, refused, Attempt};
use crate::register::REGISTER_URL;
use crate::text::{concat, decimal_text, has_text, second_field_of};
use crate::text::{contains_text, decimal, second_field};
use vstd::prelude::*;

verus! {

/// What the client says of itself.
pub const FIREBASE_CLIENT: &'static str =
    "android-min-sdk/23 fire-core/20.0.0 device-name/a21snnxx device-brand/samsung device-model/a21s android-installer/com.android.vending fire-android/30 fire-installations/17.0.0 fire-fcm/22.0.0 android-platform/ kotlin/1.9.23 android-target-sdk/34";

/// The browser that the client passes for.
pub const USER_AGENT: &'static str =
    "Dalvik/2.1.0 (Linux; U; Android 11; SM-A217F Build/RP1A.200720.012)";

/// What a registration came to.
#[derive(Debug, Clone)]
pub struct AndroidFcmRegistration {
    pub gcm: GcmDetails,
    pub fcm: FcmDetails,
}

/// The identity of the device.
#[derive(Debug, Clone)]
pub struct GcmDetails {
    pub android_id: u64,
    pub security_token: u64,
}

/// The token that senders push to.
#[derive(Debug, Clone)]
pub struct FcmDetails {
    pub token: String,
}

/// Asks for a Firebase installation.
#[derive(Debug, Clone)]
pub struct InstallRequest {
    pub fid: String,
    pub app_id: String,
    pub auth_version: String,
    pub sdk_version: String,
}

/// Answers an `InstallRequest`.
#[derive(Debug, Clone)]
pub struct InstallResponse {
    pub auth_token: Option<AuthToken>,
}

/// What an installation is authorised by.
#[derive(Debug, Clone)]
pub struct AuthToken {
    pub token: Option<String>,
}

/// The registration of an Android application.
pub struct AndroidFcm;

/// `bytes` with the four bits 0111, which mark a Firebase installation identifier, at their front.
pub open spec fn with_fid_header(bytes: Seq<u8>) -> Seq<u8> {
    bytes.update(0, (112 + bytes[0] % 16) as u8)
}

/// The header takes the four upper bits of the first byte, and leaves all other bits as they are.
pub proof fn fid_header_takes_four_bits(bytes: Seq<u8>)
    requires
        bytes.len() > 0,
    ensures
        with_fid_header(bytes).len() == bytes.len(),
        with_fid_header(bytes)[0] / 16 == 7,
        with_fid_header(bytes)[0] % 16 == bytes[0] % 16,
        forall|i: int| 0 < i < bytes.len() ==> #[trigger] with_fid_header(bytes)[i] == bytes[i],
{
}

/// Whether `text` is a Firebase installation identifier: seventeen bytes in base64, of which the
/// first starts with the bits 0111.
pub open spec fn is_fid(text: Seq<char>) -> bool {
    exists|bytes: Seq<u8>|
        bytes.len() == 17 && bytes[0] / 16 == 7 && text == #[trigger] base64(
            bytes,
            Alphabet::Standard,
        )
}

/// A Firebase installation identifier has twenty-three symbols, and starts with one of the letters
/// `c` to `f`.
pub proof fn shape_of_fid(text: Seq<char>)
    requires
        is_fid(text),
    ensures
        text.len() == 23,
        'c' <= text[0] <= 'f',
{
    let bytes = choose|bytes: Seq<u8>|
        bytes.len() == 17 && bytes[0] / 16 == 7 && text == #[trigger] base64(
            bytes,
            Alphabet::Standard,
        );
    assert(base64_len(17) == 23);
    assert(text[0] == symbol(sextet(bytes, 0), Alphabet::Standard));
    assert(sextet(bytes, 0) == bytes[0] / 4);
}

impl AndroidFcm {
    /// The identifier that seventeen random bytes make.
    pub fn fid_of(random: Vec<u8>) -> (res: String)
        requires
            random@.len() == 17,
        ensures
            res@ == base64(with_fid_header(random@), Alphabet::Standard),
    {
        let mut bytes = random;
        let first: u8 = 112 + bytes[0] % 16;
        bytes.set(0, first);
        standard_encode(bytes.as_slice())
    }

    /// Draws a new Firebase installation identifier.
    pub fn generate_firebase_fid() -> (res: String)
        ensures
            is_fid(res@),
            exists|bytes: Seq<u8>|
                bytes.len() == 17 && bytes[0] / 16 == 7 && res@ == #[trigger] base64(
                    bytes,
                    Alphabet::Standard,
                ),
    {
        let random = random_bytes(17);
        let ghost bytes = with_fid_header(random@);
        assert(bytes.len() == 17 && bytes[0] / 16 == 7);
        AndroidFcm::fid_of(random)
    }

    /// Where the installation of a project is asked for.
    pub fn install_url(project_id: &str) -> (res: String)
        ensures
            res@ == "https://firebaseinstallations.googleapis.com/v1/projects/"@ + project_id@
                + "/installations"@,
    {
        let project = concat(
            "https://firebaseinstallations.googleapis.com/v1/projects/",
            project_id,
        );
        concat(project.as_str(), "/installations")
    }

    /// The headers of a request for an installation, in order.
    pub fn install_headers(
        api_key: &str,
        android_package_name: &str,
        android_package_cert: &str,
    ) -> (res: Vec<(String, String)>)
        ensures
            pairs(res@) == seq![
                ("Accept"@, "application/json"@),
                ("X-Android-Package"@, android_package_name@),
                ("X-Android-Cert"@, android_package_cert@),
                ("x-firebase-client"@, FIREBASE_CLIENT@),
                ("x-firebase-client-log-type"@, "3"@),
                ("x-goog-api-key"@, api_key@),
                ("User-Agent"@, USER_AGENT@),
            ],
    {
        let mut headers = no_pairs();
        append_pair(&mut headers, "Accept", "application/json");
        append_pair(&mut headers, "X-Android-Package", android_package_name);
        append_pair(&mut headers, "X-Android-Cert", android_package_cert);
        append_pair(&mut headers, "x-firebase-client", FIREBASE_CLIENT);
        append_pair(&mut headers, "x-firebase-client-log-type", "3");
        append_pair(&mut headers, "x-goog-api-key", api_key);
        append_pair(&mut headers, "User-Agent", USER_AGENT);
        headers
    }

    /// The body of a request for an installation with the identifier `fid`.
    pub fn install_body(fid: String, gms_app_id: &str) -> (res: InstallRequest)
        ensures
            res.fid == fid,
            res.app_id@ == gms_app_id@,
            res.auth_version@ == "FIS_v2"@,
            res.sdk_version@ == "a:17.0.0"@,
    {
        InstallRequest {
            fid,
            app_id: gms_app_id.to_owned(),
            auth_version: "FIS_v2".to_owned(),
            sdk_version: "a:17.0.0".to_owned(),
        }
    }

    /// Reads the token off the answer to a request for an installation.
    pub fn installation_token(response: InstallResponse) -> (res: Result<String, Error>)
        ensures
            match response.auth_token {
                Some(AuthToken { token: Some(token) }) => res == Ok::<String, Error>(token),
                _ => res matches Err(error) && error@ == ErrorView::Registration(
                    "Failed to get Firebase installation AuthToken"@,
                ),
            },
    {
        match response.auth_token {
            Some(AuthToken { token: Some(token) }) => Ok(token),
            _ => Err(
                Error::Registration("Failed to get Firebase installation AuthToken".to_owned()),
            ),
        }
    }

    /// The request for the token of an application.
    pub fn token_request(
        checkin: &CheckinResult,
        installation_auth_token: &str,
        gcm_sender_id: &str,
        gms_app_id: &str,
        android_package_name: &str,
        android_package_cert: &str,
    ) -> (res: FormRequest)
        ensures
            res.url@ == REGISTER_URL@,
            res.authorization matches Some(header) && header@ == device_authorization(
                checkin.android_id,
                checkin.security_token,
            ),
            pairs(res.form@) == seq![
                ("device"@, decimal(checkin.android_id as nat)),
                ("app"@, android_package_name@),
                ("cert"@, android_package_cert@),
                ("app_ver"@, "1"@),
                ("X-subtype"@, gcm_sender_id@),
                ("X-app_ver"@, "1"@),
                ("X-osv"@, "29"@),
                ("X-cliv"@, "fiid-21.1.1"@),
                ("X-gmsv"@, "220217001"@),
                ("X-scope"@, "*"@),
                ("X-Goog-Firebase-Installations-Auth"@, installation_auth_token@),
                ("X-gms_app_id"@, gms_app_id@),
                ("X-Firebase-Client"@, FIREBASE_CLIENT@),
                ("X-Firebase-Client-Log-Type"@, "1"@),
                ("X-app_ver_name"@, "1"@),
                ("target_ver"@, "31"@),
                ("sender"@, gcm_sender_id@),
            ],
    {
        let mut form = no_pairs();
        append_pair(&mut form, "device", decimal_text(checkin.android_id).as_str());
        append_pair(&mut form, "app", android_package_name);
        append_pair(&mut form, "cert", android_package_cert);
        append_pair(&mut form, "app_ver", "1");
        append_pair(&mut form, "X-subtype", gcm_sender_id);
        append_pair(&mut form, "X-app_ver", "1");
        append_pair(&mut form, "X-osv", "29");
        append_pair(&mut form, "X-cliv", "fiid-21.1.1");
        append_pair(&mut form, "X-gmsv", "220217001");
        append_pair(&mut form, "X-scope", "*");
        append_pair(&mut form, "X-Goog-Firebase-Installations-Auth", installation_auth_token);
        append_pair(&mut form, "X-gms_app_id", gms_app_id);
        append_pair(&mut form, "X-Firebase-Client", FIREBASE_CLIENT);
        append_pair(&mut form, "X-Firebase-Client-Log-Type", "1");
        append_pair(&mut form, "X-app_ver_name", "1");
        append_pair(&mut form, "target_ver", "31");
        append_pair(&mut form, "sender", gcm_sender_id);
        FormRequest {
            url: REGISTER_URL.to_owned(),
            authorization: Some(auth_header(checkin.android_id, checkin.security_token)),
            form,
        }
    }

    /// Decides what the answer to the `retry`-th repetition of the request for a token leads to,
    /// where `success` tells what its status is. A refusal is one whatever the status. The token
    /// stands behind the first `=`, and may be empty.
    pub fn token_attempt(reply: &str, retry: u32, success: bool) -> (res: Attempt)
        ensures
            if is_refusal(reply@) {
                refusal_leads_to(retry, res)
            } else if !success {
                res == Attempt::BadStatus
            } else if second_field(reply@, '=') is Some {
                res matches Attempt::Token(token) && second_field(reply@, '=') == Some(token@)
            } else {
                is_format_failure(res)
            },
            contains_text(reply@, "Error"@) && retry < 5 ==> (res matches Attempt::Retry(next)
                && next == retry + 1),
            contains_text(reply@, "Error"@) && retry >= 5 ==> (res matches Attempt::Failed(error)
                && error@ == ErrorView::Registration("GCM register has failed"@)),
            !contains_text(reply@, "Error"@) && success && second_field(reply@, '=') is None ==> (
            res matches Attempt::Failed(error) && error@ == ErrorView::Registration(
                "Invalid token format"@,
            )),
    {
        if has_text(reply, "Error") {
            return refused(retry);
        }
        if !success {
            return Attempt::BadStatus;
        }
        match second_field_of(reply, '=') {
            Some(token) => Attempt::Token(token),
            None => Attempt::Failed(Error::Registration("Invalid token format".to_owned())),
        }
    }

    /// What a registration came to.
    pub fn registration_of(checkin: &CheckinResult, token: String) -> (res: AndroidFcmRegistration)
        ensures
            res.gcm.android_id == checkin.android_id,
            res.gcm.security_token == checkin.security_token,
            res.fcm.token == token,
    {
        AndroidFcmRegistration {
            gcm: GcmDetails {
                android_id: checkin.android_id,
                security_token: checkin.security_token,
            },
            fcm: FcmDetails { token },
        }
    }
}

} // verus!
