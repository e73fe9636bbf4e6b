//! The check-in, which gives the device its identity.

use crate::proto::{
    AndroidCheckinProto, AndroidCheckinRequest, AndroidCheckinResponse, ChromeBuildProto,
};
use vstd::prelude::*;

verus! {

/// Where the check-in request goes.
pub const CHECKIN_URL: &'static str = "https://android.clients.google.com/checkin";

/// The identity that a check-in gave.
#[derive(Debug, Clone)]
pub struct CheckinResult {
    pub android_id: u64,
    pub security_token: u64,
}

/// The request of a Chrome browser, for a new identity or for one that it already has.
pub fn checkin_request(android_id: Option<u64>, security_token: Option<u64>) -> (res:
    AndroidCheckinRequest)
    ensures
        res.user_serial_number == Some(0i32),
        res.checkin.last_checkin_msec is None,
        res.checkin.cell_operator is None,
        res.checkin.sim_operator is None,
        res.checkin.roaming is None,
        res.checkin.user_number is None,
        res.checkin.device_type == Some(3i32),
        res.checkin.chrome_build matches Some(build) && build.platform == Some(2i32)
            && build.channel == Some(1i32) && (build.chrome_version matches Some(version)
            && version@ == "63.0.3234.0"@),
        res.version == Some(3i32),
        match android_id {
            Some(id) => res.id == Some(id as i64),
            None => res.id is None,
        },
        res.security_token == security_token,
{
    let id = match android_id {
        Some(id) => Some(
            #[verifier::truncate]
            (id as i64),
        ),
        None => None,
    };
    AndroidCheckinRequest {
        user_serial_number: Some(0),
        checkin: AndroidCheckinProto {
            last_checkin_msec: None,
            cell_operator: None,
            sim_operator: None,
            roaming: None,
            user_number: None,
            device_type: Some(3),
            chrome_build: Some(
                ChromeBuildProto {
                    platform: Some(2),
                    chrome_version: Some("63.0.3234.0".to_owned()),
                    channel: Some(1),
                },
            ),
        },
        version: Some(3),
        id,
        security_token,
    }
}

/// `value`, or zero where there is none.
pub open spec fn or_zero(value: Option<u64>) -> u64 {
    match value {
        Some(value) => value,
        None => 0,
    }
}

/// What is there is taken as it is, all of its sixty-four bits, and only what is missing counts as
/// zero.
pub proof fn present_value_is_kept(value: u64)
    ensures
        or_zero(Some(value)) == value,
        or_zero(None) == 0,
{
}

/// Reads the identity off the response; what the server leaves out counts as zero.
pub fn checkin_result(response: &AndroidCheckinResponse) -> (res: CheckinResult)
    ensures
        res.android_id == or_zero(response.android_id),
        res.security_token == or_zero(response.security_token),
        response.android_id matches Some(id) ==> res.android_id == id,
        response.android_id is None ==> res.android_id == 0,
        response.security_token matches Some(token) ==> res.security_token == token,
        response.security_token is None ==> res.security_token == 0,
{
    CheckinResult {
        android_id: match response.android_id {
            Some(id) => id,
            None => 0,
        },
        security_token: match response.security_token {
            Some(token) => token,
            None => 0,
        },
    }
}

} // verus!
