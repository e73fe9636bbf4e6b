//! The messages of the check-in and of the Mobile Connection Server (MCS) protocol, with the
//! fields that the receiver reads or fills.

use vstd::prelude::*;

verus! {

/// Asks the peer for a sign of life.
#[derive(Debug, Clone, Default)]
pub struct HeartbeatPing {
    pub last_stream_id_received: Option<i32>,
}

/// Answers a `HeartbeatPing`.
#[derive(Debug, Clone, Default)]
pub struct HeartbeatAck {
    pub last_stream_id_received: Option<i32>,
}

/// A name and a value that a client sends when it logs in.
#[derive(Debug, Clone, Default)]
pub struct Setting {
    pub name: String,
    pub value: String,
}

/// Opens a session.
#[derive(Debug, Clone, Default)]
pub struct LoginRequest {
    pub id: String,
    pub domain: String,
    pub user: String,
    pub resource: String,
    pub auth_token: String,
    pub device_id: Option<String>,
    pub setting: Vec<Setting>,
    pub received_persistent_id: Vec<String>,
    pub adaptive_heartbeat: Option<bool>,
    pub use_rmq2: Option<bool>,
    pub auth_service: Option<i32>,
    pub network_type: Option<i32>,
}

/// Why a login was refused; a code of zero is no refusal.
#[derive(Debug, Clone, Default)]
pub struct ErrorInfo {
    pub code: i32,
    pub message: Option<String>,
}

/// How often the server wants a heartbeat.
#[derive(Debug, Clone, Default)]
pub struct HeartbeatConfig {
    pub interval_ms: Option<i32>,
}

/// Answers a `LoginRequest`.
#[derive(Debug, Clone, Default)]
pub struct LoginResponse {
    pub error: Option<ErrorInfo>,
    pub heartbeat_config: Option<HeartbeatConfig>,
}

/// Ends the session.
#[derive(Debug, Clone, Default)]
pub struct Close {}

/// What an `IqStanza` is about.
#[derive(Debug, Clone, Default)]
pub struct Extension {
    pub id: i32,
    pub data: Vec<u8>,
}

/// A query or a command outside the data stream.
#[derive(Debug, Clone, Default)]
pub struct IqStanza {
    pub iq_type: i32,
    pub id: String,
    pub extension: Option<Extension>,
    pub last_stream_id_received: Option<i32>,
}

/// A key and a value that travel with a data message.
#[derive(Debug, Clone, Default)]
pub struct AppData {
    pub key: String,
    pub value: String,
}

/// A push message.
#[derive(Debug, Clone, Default)]
pub struct DataMessageStanza {
    pub from: String,
    pub category: String,
    pub app_data: Vec<AppData>,
    pub persistent_id: Option<String>,
    pub sent: Option<i64>,
    pub raw_data: Option<Vec<u8>>,
    pub immediate_ack: Option<bool>,
}

/// Reports a failure of the stream.
#[derive(Debug, Clone, Default)]
pub struct StreamErrorStanza {
    pub error_type: String,
    pub text: Option<String>,
}

/// The browser that checks in.
#[derive(Debug, Clone, Default)]
pub struct ChromeBuildProto {
    pub platform: Option<i32>,
    pub chrome_version: Option<String>,
    pub channel: Option<i32>,
}

/// The device that checks in.
#[derive(Debug, Clone, Default)]
pub struct AndroidCheckinProto {
    pub last_checkin_msec: Option<i64>,
    pub cell_operator: Option<String>,
    pub sim_operator: Option<String>,
    pub roaming: Option<String>,
    pub user_number: Option<i32>,
    pub device_type: Option<i32>,
    pub chrome_build: Option<ChromeBuildProto>,
}

/// Asks for an identity.
#[derive(Debug, Clone, Default)]
pub struct AndroidCheckinRequest {
    pub id: Option<i64>,
    pub checkin: AndroidCheckinProto,
    pub security_token: Option<u64>,
    pub version: Option<i32>,
    pub user_serial_number: Option<i32>,
}

/// Answers an `AndroidCheckinRequest`.
#[derive(Debug, Clone, Default)]
pub struct AndroidCheckinResponse {
    pub android_id: Option<u64>,
    pub security_token: Option<u64>,
}

} // verus!
