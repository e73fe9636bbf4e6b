//! The session with the Mobile Connection Server: what is sent, when, and how long to wait.
//!
//! The session is driven by events: `ConnectionState::start` and `ConnectionState::step` say what
//! to do next, and whoever holds the connection does it and reports back.

use crate::codec::McsMessage;
use crate::error::{Error, ErrorView};
use crate::proto::{
    DataMessageStanza, Extension, HeartbeatAck, HeartbeatPing, IqStanza, LoginRequest,
    LoginResponse, Setting, StreamErrorStanza,
};
use crate::text::{
    concat, decimal, decimal_text, hexadecimal, hexadecimal_text, signed_decimal,
    signed_decimal_text,
};
use vstd::prelude::*;

verus! {

/// The time without a message after which a heartbeat is sent, where the server asks for none in
/// particular: five minutes, in milliseconds.
pub const DEFAULT_HEARTBEAT_INTERVAL: u64 = 300_000;

/// The shortest such time: thirty seconds, in milliseconds.
pub const MIN_HEARTBEAT_INTERVAL: u64 = 30_000;

/// The longest such time: fifteen minutes, in milliseconds.
pub const MAX_HEARTBEAT_INTERVAL: u64 = 900_000;

/// The time that the server has to answer a heartbeat: thirty seconds, in milliseconds.
pub const HEARTBEAT_RESPONSE_TIMEOUT: u64 = 30_000;

/// The number of tracked messages that are acknowledged together.
pub const STREAM_ACK_THRESHOLD: usize = 10;

/// The extension that marks a stream acknowledgement.
pub const STREAM_ACK_EXTENSION_ID: i32 = 13;

/// The type of a query that sets something.
pub const IQ_TYPE_SET: i32 = 1;

/// The login of the device `android_id`, which tells the server which messages it already has.
pub fn login_request(
    android_id: u64,
    security_token: u64,
    persistent_ids: Vec<String>,
) -> (res: LoginRequest)
    ensures
        res.adaptive_heartbeat == Some(false),
        res.auth_service == Some(2i32),
        res.auth_token@ == decimal(security_token as nat),
        res.id@ == "chrome-63.0.3234.0"@,
        res.domain@ == "mcs.android.com"@,
        res.device_id matches Some(device) && device@ == "android-"@ + hexadecimal(
            android_id as nat,
        ),
        res.network_type == Some(1i32),
        res.resource@ == decimal(android_id as nat),
        res.user@ == decimal(android_id as nat),
        res.use_rmq2 == Some(true),
        res.setting@.len() == 1,
        res.setting@[0].name@ == "new_vc"@,
        res.setting@[0].value@ == "1"@,
        res.received_persistent_id == persistent_ids,
{
    let mut setting: Vec<Setting> = Vec::new();
    setting.push(Setting { name: "new_vc".to_owned(), value: "1".to_owned() });
    LoginRequest {
        adaptive_heartbeat: Some(false),
        auth_service: Some(2),
        auth_token: decimal_text(security_token),
        id: "chrome-63.0.3234.0".to_owned(),
        domain: "mcs.android.com".to_owned(),
        device_id: Some(concat("android-", hexadecimal_text(android_id).as_str())),
        network_type: Some(1),
        resource: decimal_text(android_id),
        user: decimal_text(android_id),
        use_rmq2: Some(true),
        setting,
        received_persistent_id: persistent_ids,
    }
}

/// The text of an optional detail.
pub open spec fn detail_or_none(detail: Option<String>) -> Seq<char> {
    match detail {
        Some(text) => text@,
        None => "no detail"@,
    }
}

fn detail_text(detail: &Option<String>) -> (res: &str)
    ensures
        res@ == detail_or_none(*detail),
{
    match detail {
        Some(text) => text.as_str(),
        None => "no detail",
    }
}

/// `value`, or the nearer of the two bounds where it lies outside.
pub open spec fn clamped(value: int, low: int, high: int) -> int {
    if value < low {
        low
    } else if value > high {
        high
    } else {
        value
    }
}

/// The heartbeat interval in milliseconds that a login response sets, or the error with which it
/// refuses the login.
pub open spec fn heartbeat_interval_of(response: LoginResponse) -> Result<int, ErrorView> {
    if response.error matches Some(error) && error.code != 0 {
        Err(
            ErrorView::Protocol(
                "MCS login failed with code "@ + signed_decimal(response.error->0.code as int)
                    + ": "@ + detail_or_none(response.error->0.message),
            ),
        )
    } else {
        let requested = if response.heartbeat_config matches Some(config)
            && config.interval_ms matches Some(milliseconds) && milliseconds >= 0 {
            response.heartbeat_config->0.interval_ms->0 as int
        } else {
            DEFAULT_HEARTBEAT_INTERVAL as int
        };
        Ok(clamped(requested, MIN_HEARTBEAT_INTERVAL as int, MAX_HEARTBEAT_INTERVAL as int))
    }
}

/// Reads the heartbeat interval, in milliseconds, off a login response. A response without one, or
/// with a negative one, means the default; a response with an error code refuses the login.
pub fn login_heartbeat_interval(response: &LoginResponse) -> (res: Result<u64, Error>)
    ensures
        match heartbeat_interval_of(*response) {
            Ok(interval) => res matches Ok(milliseconds) && milliseconds == interval,
            Err(failure) => res matches Err(error) && error@ == failure,
        },
        res is Err <==> (response.error matches Some(error) && error.code != 0),
        res matches Ok(milliseconds) ==> 30_000 <= milliseconds <= 900_000,
{
    if let Some(error) = &response.error {
        if error.code != 0 {
            let head = concat(
                "MCS login failed with code ",
                signed_decimal_text(error.code as i64).as_str(),
            );
            return Err(
                Error::Protocol(
                    concat(concat(head.as_str(), ": ").as_str(), detail_text(&error.message)),
                ),
            );
        }
    }
    let mut requested: u64 = DEFAULT_HEARTBEAT_INTERVAL;
    if let Some(config) = &response.heartbeat_config {
        if let Some(milliseconds) = config.interval_ms {
            if milliseconds >= 0 {
                requested = milliseconds as u64;
            }
        }
    }
    if requested < MIN_HEARTBEAT_INTERVAL {
        Ok(MIN_HEARTBEAT_INTERVAL)
    } else if requested > MAX_HEARTBEAT_INTERVAL {
        Ok(MAX_HEARTBEAT_INTERVAL)
    } else {
        Ok(requested)
    }
}

/// Whether `message` acknowledges the stream up to `last_stream_id_received`.
pub open spec fn is_stream_ack(message: McsMessage, last_stream_id_received: i32) -> bool {
    &&& message matches McsMessage::IqStanza(stanza)
    &&& stanza.iq_type == IQ_TYPE_SET
    &&& stanza.id@ == Seq::<char>::empty()
    &&& stanza.extension matches Some(extension)
    &&& extension.id == STREAM_ACK_EXTENSION_ID
    &&& extension.data@ == Seq::<u8>::empty()
    &&& stanza.last_stream_id_received == Some(last_stream_id_received)
}

/// The message that acknowledges the stream up to `last_stream_id_received`.
pub fn stream_ack(last_stream_id_received: i32) -> (res: McsMessage)
    ensures
        is_stream_ack(res, last_stream_id_received),
        res matches McsMessage::IqStanza(stanza) && stanza.iq_type == 1 && stanza.id@.len() == 0
            && stanza.last_stream_id_received == Some(last_stream_id_received) && (
        stanza.extension matches Some(extension) && extension.id == 13 && extension.data@.len()
            == 0),
{
    McsMessage::IqStanza(
        IqStanza {
            iq_type: IQ_TYPE_SET,
            id: String::new(),
            extension: Some(Extension { id: STREAM_ACK_EXTENSION_ID, data: Vec::new() }),
            last_stream_id_received: Some(last_stream_id_received),
        },
    )
}

/// The error that a stream error stanza is reported as.
pub open spec fn stream_failure(stanza: StreamErrorStanza) -> ErrorView {
    ErrorView::Protocol(
        "MCS stream error "@ + stanza.error_type@ + ": "@ + detail_or_none(stanza.text),
    )
}

/// The error that a stream error stanza is reported as.
pub fn stream_error(stanza: &StreamErrorStanza) -> (res: Error)
    ensures
        res@ == stream_failure(*stanza),
        res@ == ErrorView::Protocol(
            "MCS stream error "@ + stanza.error_type@ + ": "@ + (match stanza.text {
                Some(text) => text@,
                None => "no detail"@,
            }),
        ),
{
    let head = concat("MCS stream error ", stanza.error_type.as_str());
    Error::Protocol(concat(concat(head.as_str(), ": ").as_str(), detail_text(&stanza.text)))
}

/// What the session waits for.
#[derive(Debug, Clone, Copy, PartialEq, Eq, Structural)]
pub enum Wait {
    /// The next message, for a heartbeat interval.
    Idle,
    /// A sign of life, after a heartbeat was sent.
    Heartbeat,
}

/// What is due once a data message has been handed to its consumer.
#[derive(Debug, Clone, Copy, PartialEq, Eq, Structural)]
pub struct Receipt {
    /// The sender wants the message acknowledged at once.
    pub immediate_ack: bool,
    /// The server keeps the message until it is acknowledged.
    pub tracks_delivery: bool,
}

/// What happened on the connection.
#[derive(Debug)]
pub enum Event {
    /// A message came.
    Message(McsMessage),
    /// The peer closed the stream.
    Ended,
    /// Nothing came for as long as was waited.
    Silence(Wait),
    /// The consumer took the data message.
    Delivered(Receipt),
    /// The consumer is gone.
    Undeliverable,
}

/// What is to be done next.
#[derive(Debug)]
pub enum Action {
    /// Send the message if there is one, forget the identifiers of processed messages if asked to,
    /// then wait for the next message for at most `timeout` milliseconds.
    Listen { send: Option<McsMessage>, forget_ids: bool, wait: Wait, timeout: u64 },
    /// Hand the data message to its consumer.
    Deliver { data: DataMessageStanza, receipt: Receipt },
    /// End the session.
    Stop(Result<(), Error>),
}

/// Whether `action` ends the session with this error.
pub open spec fn fails_with(action: Action, failure: ErrorView) -> bool {
    action matches Action::Stop(Err(error)) && error@ == failure
}

/// What one side remembers of a session.
#[derive(Debug)]
pub struct ConnectionState {
    /// The number of messages since the login response, that one included; zero before it.
    pub last_stream_id_received: i32,
    /// The number of tracked messages that were delivered and not yet acknowledged.
    pub unacknowledged_messages: usize,
    /// The time without a message after which a heartbeat is sent, in milliseconds.
    pub heartbeat_interval: u64,
}

impl Default for ConnectionState {
    fn default() -> (res: Self)
        ensures
            res.last_stream_id_received == 0,
            res.unacknowledged_messages == 0,
            res.heartbeat_interval == DEFAULT_HEARTBEAT_INTERVAL,
            res.sound(),
    {
        ConnectionState {
            last_stream_id_received: 0,
            unacknowledged_messages: 0,
            heartbeat_interval: DEFAULT_HEARTBEAT_INTERVAL,
        }
    }
}

/// The receipt that a data message asks for.
pub open spec fn receipt_of(data: DataMessageStanza) -> Receipt {
    Receipt {
        immediate_ack: data.immediate_ack == Some(true),
        tracks_delivery: data.persistent_id is Some,
    }
}

impl ConnectionState {
    /// What holds of the state between two messages of a session.
    pub open spec fn sound(self) -> bool {
        &&& 0 <= self.last_stream_id_received
        &&& self.unacknowledged_messages < STREAM_ACK_THRESHOLD
        &&& MIN_HEARTBEAT_INTERVAL <= self.heartbeat_interval <= MAX_HEARTBEAT_INTERVAL
    }

    /// Whether a login response has come.
    pub open spec fn logged_in(self) -> bool {
        self.last_stream_id_received > 0
    }

    /// The state after a message was counted.
    pub open spec fn counted(self, message: McsMessage) -> ConnectionState {
        ConnectionState {
            last_stream_id_received: if message is LoginResponse {
                1
            } else if self.logged_in() && self.last_stream_id_received < i32::MAX {
                (self.last_stream_id_received + 1) as i32
            } else {
                self.last_stream_id_received
            },
            ..self
        }
    }

    /// Whether an acknowledgement is due.
    pub open spec fn ack_due(self, immediate_ack: bool) -> bool {
        immediate_ack || self.unacknowledged_messages >= STREAM_ACK_THRESHOLD
    }

    /// The state after a delivery was counted, and before it is acknowledged.
    pub open spec fn delivered(self, receipt: Receipt) -> ConnectionState {
        if receipt.tracks_delivery {
            ConnectionState {
                unacknowledged_messages: (self.unacknowledged_messages + 1) as usize,
                ..self
            }
        } else {
            self
        }
    }

    /// The state after an event.
    pub open spec fn after(self, event: Event) -> ConnectionState {
        match event {
            Event::Message(message) => {
                let counted = self.counted(message);
                match message {
                    McsMessage::LoginResponse(response) => match heartbeat_interval_of(response) {
                        Ok(interval) => ConnectionState {
                            heartbeat_interval: interval as u64,
                            ..counted
                        },
                        Err(_) => counted,
                    },
                    _ => counted,
                }
            },
            Event::Delivered(receipt) => {
                let delivered = self.delivered(receipt);
                if delivered.ack_due(receipt.immediate_ack) {
                    ConnectionState { unacknowledged_messages: 0, ..delivered }
                } else {
                    delivered
                }
            },
            _ => self,
        }
    }

    /// Whether `action` is what an event calls for, where the state after the event is `self`.
    pub open spec fn answers(self, event: Event, before: ConnectionState, action: Action) -> bool {
        match event {
            Event::Message(McsMessage::LoginResponse(response)) => match heartbeat_interval_of(
                response,
            ) {
                Ok(_) => self.listens(action, true) && action->send is None,
                Err(failure) => fails_with(action, failure),
            },
            Event::Message(McsMessage::HeartbeatPing(_)) => self.listens(action, false)
                && action->send == Some(
                McsMessage::HeartbeatAck(
                    HeartbeatAck { last_stream_id_received: Some(self.last_stream_id_received) },
                ),
            ),
            Event::Message(McsMessage::DataMessageStanza(data)) => action == Action::Deliver {
                data,
                receipt: receipt_of(data),
            },
            Event::Message(McsMessage::Close(_)) => action == Action::Stop(Ok(())),
            Event::Message(McsMessage::StreamErrorStanza(stanza)) => fails_with(
                action,
                stream_failure(stanza),
            ),
            Event::Message(_) => self.listens(action, false) && action->send is None,
            Event::Ended => action == Action::Stop(Ok(())),
            Event::Silence(Wait::Idle) => action == Action::Listen {
                send: Some(
                    McsMessage::HeartbeatPing(
                        HeartbeatPing {
                            last_stream_id_received: if self.logged_in() {
                                Some(self.last_stream_id_received)
                            } else {
                                None
                            },
                        },
                    ),
                ),
                forget_ids: false,
                wait: Wait::Heartbeat,
                timeout: HEARTBEAT_RESPONSE_TIMEOUT,
            },
            Event::Silence(Wait::Heartbeat) => fails_with(
                action,
                ErrorView::Protocol("MCS heartbeat timed out"@),
            ),
            Event::Delivered(receipt) => self.listens(action, false) && if before.delivered(
                receipt,
            ).ack_due(receipt.immediate_ack) {
                action->send matches Some(message) && is_stream_ack(
                    message,
                    self.last_stream_id_received,
                )
            } else {
                action->send is None
            },
            Event::Undeliverable => fails_with(
                action,
                ErrorView::Protocol("push notification consumer stopped"@),
            ),
        }
    }

    /// Whether `action` waits for the next message for a heartbeat interval.
    pub open spec fn listens(self, action: Action, forget_ids: bool) -> bool {
        action matches Action::Listen { send, forget_ids: forget, wait, timeout } && forget
            == forget_ids && wait == Wait::Idle && timeout == self.heartbeat_interval
    }

    /// Counts an incoming message: a login response is the first, and messages before it do not
    /// count.
    pub fn record_incoming(&mut self, message: &McsMessage)
        ensures
            *final(self) == old(self).counted(*message),
            final(self).unacknowledged_messages == old(self).unacknowledged_messages,
            final(self).heartbeat_interval == old(self).heartbeat_interval,
            final(self).last_stream_id_received == if message is LoginResponse {
                1int
            } else if 0 < old(self).last_stream_id_received < i32::MAX {
                old(self).last_stream_id_received + 1
            } else {
                old(self).last_stream_id_received as int
            },
    {
        if let McsMessage::LoginResponse(_) = message {
            self.last_stream_id_received = 1;
        } else if self.is_logged_in() && self.last_stream_id_received < i32::MAX {
            self.last_stream_id_received = self.last_stream_id_received + 1;
        }
    }

    /// Whether a login response has come.
    pub fn is_logged_in(&self) -> (res: bool)
        ensures
            res == self.logged_in(),
            res == (self.last_stream_id_received > 0),
    {
        self.last_stream_id_received > 0
    }

    /// Whether an acknowledgement is due: when the sender asks for it, or when enough messages are
    /// unacknowledged.
    pub fn should_ack(&self, immediate_ack: bool) -> (res: bool)
        ensures
            res == self.ack_due(immediate_ack),
            res == (immediate_ack || self.unacknowledged_messages >= 10),
    {
        immediate_ack || self.unacknowledged_messages >= STREAM_ACK_THRESHOLD
    }

    fn listen(&self, send: Option<McsMessage>, forget_ids: bool) -> (res: Action)
        ensures
            self.listens(res, forget_ids),
            res->send == send,
    {
        Action::Listen {
            send,
            forget_ids,
            wait: Wait::Idle,
            timeout: self.heartbeat_interval,
        }
    }

    /// Opens the session: the login is the first message that is sent.
    pub fn start(&self, login: LoginRequest) -> (res: Action)
        ensures
            self.listens(res, false),
            res->send == Some(McsMessage::LoginRequest(login)),
            res == (Action::Listen {
                send: Some(McsMessage::LoginRequest(login)),
                forget_ids: false,
                wait: Wait::Idle,
                timeout: self.heartbeat_interval,
            }),
    {
        self.listen(Some(McsMessage::LoginRequest(login)), false)
    }

    /// Takes an event in, and says what is to be done next.
    pub fn step(&mut self, event: Event) -> (res: Action)
        requires
            event matches Event::Delivered(receipt) ==> receipt.tracks_delivery ==> old(
                self,
            ).unacknowledged_messages < usize::MAX,
        ensures
            *final(self) == old(self).after(event),
            final(self).answers(event, *old(self), res),
    {
        match event {
            Event::Message(message) => {
                self.record_incoming(&message);
                match message {
                    McsMessage::LoginResponse(response) => {
                        match login_heartbeat_interval(&response) {
                            Ok(interval) => {
                                self.heartbeat_interval = interval;
                                self.listen(None, true)
                            },
                            Err(error) => Action::Stop(Err(error)),
                        }
                    },
                    McsMessage::HeartbeatPing(_) => self.listen(
                        Some(
                            McsMessage::HeartbeatAck(
                                HeartbeatAck {
                                    last_stream_id_received: Some(self.last_stream_id_received),
                                },
                            ),
                        ),
                        false,
                    ),
                    McsMessage::DataMessageStanza(data) => {
                        let immediate_ack = match data.immediate_ack {
                            Some(wanted) => wanted,
                            None => false,
                        };
                        let tracks_delivery = data.persistent_id.is_some();
                        Action::Deliver {
                            data,
                            receipt: Receipt { immediate_ack, tracks_delivery },
                        }
                    },
                    McsMessage::Close(_) => Action::Stop(Ok(())),
                    McsMessage::StreamErrorStanza(stanza) => Action::Stop(
                        Err(stream_error(&stanza)),
                    ),
                    _ => self.listen(None, false),
                }
            },
            Event::Ended => Action::Stop(Ok(())),
            Event::Silence(Wait::Idle) => {
                let last_stream_id_received = if self.is_logged_in() {
                    Some(self.last_stream_id_received)
                } else {
                    None
                };
                Action::Listen {
                    send: Some(
                        McsMessage::HeartbeatPing(HeartbeatPing { last_stream_id_received }),
                    ),
                    forget_ids: false,
                    wait: Wait::Heartbeat,
                    timeout: HEARTBEAT_RESPONSE_TIMEOUT,
                }
            },
            Event::Silence(Wait::Heartbeat) => Action::Stop(
                Err(Error::Protocol("MCS heartbeat timed out".to_owned())),
            ),
            Event::Delivered(receipt) => {
                if receipt.tracks_delivery {
                    self.unacknowledged_messages = self.unacknowledged_messages + 1;
                }
                if self.should_ack(receipt.immediate_ack) {
                    let ack = stream_ack(self.last_stream_id_received);
                    self.unacknowledged_messages = 0;
                    self.listen(Some(ack), false)
                } else {
                    self.listen(None, false)
                }
            },
            Event::Undeliverable => Action::Stop(
                Err(Error::Protocol("push notification consumer stopped".to_owned())),
            ),
        }
    }
}

} // verus!
