use push_receiver::codec::McsMessage;
use push_receiver::error::Error;
use push_receiver::mcs::{
    login_heartbeat_interval, login_request, stream_ack, stream_error, Action, ConnectionState,
    Event, Receipt, Wait, STREAM_ACK_THRESHOLD,
};
use push_receiver::proto::{
    Close, DataMessageStanza, ErrorInfo, HeartbeatAck, HeartbeatConfig, HeartbeatPing, IqStanza,
    LoginResponse, StreamErrorStanza,
};

fn login(interval_ms: Option<i32>) -> LoginResponse {
    LoginResponse {
        error: None,
        heartbeat_config: Some(HeartbeatConfig { interval_ms }),
    }
}

fn logged_in() -> ConnectionState {
    let mut state = ConnectionState::default();
    let action = state.step(Event::Message(McsMessage::LoginResponse(login(Some(60_000)))));
    assert!(matches!(
        action,
        Action::Listen {
            send: None,
            forget_ids: true,
            wait: Wait::Idle,
            timeout: 60_000
        }
    ));
    state
}

fn failure(action: Action) -> String {
    match action {
        Action::Stop(Err(Error::Protocol(text))) => text,
        _ => panic!("the session goes on"),
    }
}

#[test]
fn acknowledges_requested_message_immediately() {
    let state = ConnectionState::default();
    assert!(state.should_ack(true));
}

#[test]
fn acknowledges_after_stream_threshold() {
    let state = ConnectionState {
        unacknowledged_messages: STREAM_ACK_THRESHOLD,
        ..ConnectionState::default()
    };
    assert!(state.should_ack(false));
}

#[test]
fn no_acknowledgement_below_threshold() {
    let state = ConnectionState {
        unacknowledged_messages: 9,
        ..ConnectionState::default()
    };
    assert!(!state.should_ack(false));
}

#[test]
fn login_request_fields() {
    let request = login_request(255, 18_446_744_073_709_551_615, vec!["p".to_string()]);
    assert_eq!(request.auth_token, "18446744073709551615");
    assert_eq!(request.device_id, Some("android-ff".to_string()));
    assert_eq!(request.user, "255");
    assert_eq!(request.resource, "255");
    assert_eq!(request.id, "chrome-63.0.3234.0");
    assert_eq!(request.domain, "mcs.android.com");
    assert_eq!(request.received_persistent_id, vec!["p".to_string()]);
    assert_eq!(request.setting.len(), 1);
    assert_eq!(request.setting[0].name, "new_vc");
    assert_eq!(request.setting[0].value, "1");
    assert_eq!(request.adaptive_heartbeat, Some(false));
    assert_eq!(request.use_rmq2, Some(true));
    assert_eq!(request.auth_service, Some(2));
    assert_eq!(request.network_type, Some(1));
    assert_eq!(
        login_request(0, 0, Vec::new()).device_id,
        Some("android-0".to_string())
    );
}

#[test]
fn heartbeat_intervals() {
    assert_eq!(login_heartbeat_interval(&LoginResponse::default()).unwrap(), 300_000);
    assert_eq!(login_heartbeat_interval(&login(None)).unwrap(), 300_000);
    assert_eq!(login_heartbeat_interval(&login(Some(-1))).unwrap(), 300_000);
    assert_eq!(login_heartbeat_interval(&login(Some(0))).unwrap(), 30_000);
    assert_eq!(login_heartbeat_interval(&login(Some(29_999))).unwrap(), 30_000);
    assert_eq!(login_heartbeat_interval(&login(Some(45_000))).unwrap(), 45_000);
    assert_eq!(login_heartbeat_interval(&login(Some(900_001))).unwrap(), 900_000);
}

#[test]
fn refused_login() {
    let mut response = login(Some(45_000));
    response.error = Some(ErrorInfo {
        code: -7,
        message: None,
    });
    let mut state = ConnectionState::default();
    let action = state.step(Event::Message(McsMessage::LoginResponse(response.clone())));
    assert_eq!(failure(action), "MCS login failed with code -7: no detail");
    response.error = Some(ErrorInfo {
        code: 401,
        message: Some("who?".to_string()),
    });
    let action = state.step(Event::Message(McsMessage::LoginResponse(response.clone())));
    assert_eq!(failure(action), "MCS login failed with code 401: who?");
    response.error = Some(ErrorInfo {
        code: 0,
        message: None,
    });
    assert_eq!(login_heartbeat_interval(&response).unwrap(), 45_000);
}

#[test]
fn session_starts_with_the_login() {
    let action = ConnectionState::default().start(login_request(1, 2, Vec::new()));
    match action {
        Action::Listen {
            send: Some(McsMessage::LoginRequest(request)),
            forget_ids: false,
            wait: Wait::Idle,
            timeout: 300_000,
        } => assert_eq!(request.auth_token, "2"),
        _ => panic!("no login"),
    }
}

#[test]
fn messages_are_counted_from_the_login_on() {
    let mut state = ConnectionState::default();
    let ack = McsMessage::HeartbeatAck(HeartbeatAck::default());
    state.record_incoming(&ack);
    assert_eq!(state.last_stream_id_received, 0);
    assert!(!state.is_logged_in());
    state.record_incoming(&McsMessage::LoginResponse(LoginResponse::default()));
    assert_eq!(state.last_stream_id_received, 1);
    assert!(state.is_logged_in());
    state.record_incoming(&ack);
    state.record_incoming(&ack);
    assert_eq!(state.last_stream_id_received, 3);
    state.last_stream_id_received = i32::MAX;
    state.record_incoming(&ack);
    assert_eq!(state.last_stream_id_received, i32::MAX);
}

#[test]
fn deliveries_are_counted_whatever_comes_between() {
    let mut state = ConnectionState::default();
    let mut acknowledged = Vec::new();
    let ping = || Event::Message(McsMessage::HeartbeatPing(HeartbeatPing::default()));
    let delivered = |immediate_ack: bool, tracks_delivery: bool| {
        Event::Delivered(Receipt {
            immediate_ack,
            tracks_delivery,
        })
    };
    let mut events = vec![
        ping(),
        Event::Message(McsMessage::LoginResponse(login(None))),
    ];
    for _ in 0..9 {
        events.push(ping());
        events.push(delivered(false, true));
        events.push(Event::Silence(Wait::Idle));
        events.push(delivered(false, false));
    }
    events.push(delivered(false, true));
    events.push(delivered(false, true));
    events.push(delivered(true, false));
    events.push(Event::Message(McsMessage::LoginResponse(login(None))));
    events.push(ping());
    for (at, event) in events.into_iter().enumerate() {
        if let Action::Listen {
            send: Some(McsMessage::IqStanza(ack)),
            ..
        } = state.step(event)
        {
            acknowledged.push((at, ack.last_stream_id_received));
        }
    }
    assert_eq!(acknowledged, vec![(38, Some(10)), (40, Some(10))]);
    assert_eq!(state.unacknowledged_messages, 0);
    assert_eq!(state.last_stream_id_received, 2);
}

#[test]
fn ping_is_answered() {
    let mut state = logged_in();
    let action = state.step(Event::Message(McsMessage::HeartbeatPing(HeartbeatPing::default())));
    match action {
        Action::Listen {
            send: Some(McsMessage::HeartbeatAck(ack)),
            forget_ids: false,
            wait: Wait::Idle,
            timeout: 60_000,
        } => assert_eq!(ack.last_stream_id_received, Some(2)),
        _ => panic!("no answer"),
    }
}

#[test]
fn silence_is_met_with_one_heartbeat() {
    let mut state = ConnectionState::default();
    for expected in [None, Some(1)] {
        match state.step(Event::Silence(Wait::Idle)) {
            Action::Listen {
                send: Some(McsMessage::HeartbeatPing(ping)),
                forget_ids: false,
                wait: Wait::Heartbeat,
                timeout: 30_000,
            } => assert_eq!(ping.last_stream_id_received, expected),
            _ => panic!("no heartbeat"),
        }
        state = logged_in();
    }
    let action = state.step(Event::Silence(Wait::Heartbeat));
    assert_eq!(failure(action), "MCS heartbeat timed out");
}

#[test]
fn data_message_is_delivered_then_acknowledged() {
    let mut state = logged_in();
    for round in 1..=20 {
        let data = DataMessageStanza {
            persistent_id: Some(format!("{round}")),
            ..DataMessageStanza::default()
        };
        let receipt = match state.step(Event::Message(McsMessage::DataMessageStanza(data))) {
            Action::Deliver { data, receipt } => {
                assert_eq!(data.persistent_id, Some(format!("{round}")));
                receipt
            }
            _ => panic!("no delivery"),
        };
        assert_eq!(
            receipt,
            Receipt {
                immediate_ack: false,
                tracks_delivery: true
            }
        );
        match state.step(Event::Delivered(receipt)) {
            Action::Listen { send: None, .. } => assert!(round % 10 != 0),
            Action::Listen {
                send: Some(McsMessage::IqStanza(stanza)),
                ..
            } => {
                assert_eq!(round % 10, 0);
                assert_eq!(stanza.last_stream_id_received, Some(round + 1));
            }
            _ => panic!("the session stops"),
        }
        assert_eq!(state.unacknowledged_messages, (round % 10) as usize);
    }
}

#[test]
fn untracked_message_is_acknowledged_on_request_only() {
    let mut state = logged_in();
    for wanted in [false, true] {
        let data = DataMessageStanza {
            immediate_ack: Some(wanted),
            ..DataMessageStanza::default()
        };
        match state.step(Event::Message(McsMessage::DataMessageStanza(data))) {
            Action::Deliver { receipt, .. } => {
                assert!(!receipt.tracks_delivery);
                match state.step(Event::Delivered(receipt)) {
                    Action::Listen { send, .. } => assert_eq!(send.is_some(), wanted),
                    _ => panic!("the session stops"),
                }
            }
            _ => panic!("no delivery"),
        }
    }
}

#[test]
fn acknowledgement_of_the_stream() {
    match stream_ack(42) {
        McsMessage::IqStanza(stanza) => {
            assert_eq!(stanza.iq_type, 1);
            assert_eq!(stanza.id, "");
            let extension = stanza.extension.unwrap();
            assert_eq!(extension.id, 13);
            assert!(extension.data.is_empty());
            assert_eq!(stanza.last_stream_id_received, Some(42));
        }
        _ => panic!("no acknowledgement"),
    }
}

#[test]
fn ends_of_a_session() {
    let mut state = logged_in();
    assert!(matches!(state.step(Event::Ended), Action::Stop(Ok(()))));
    assert!(matches!(
        state.step(Event::Message(McsMessage::Close(Close::default()))),
        Action::Stop(Ok(()))
    ));
    assert_eq!(
        failure(state.step(Event::Undeliverable)),
        "push notification consumer stopped"
    );
    let stanza = StreamErrorStanza {
        error_type: "t".to_string(),
        text: Some("d".to_string()),
    };
    assert_eq!(
        failure(state.step(Event::Message(McsMessage::StreamErrorStanza(stanza)))),
        "MCS stream error t: d"
    );
    match stream_error(&StreamErrorStanza::default()) {
        Error::Protocol(text) => assert_eq!(text, "MCS stream error : no detail"),
        _ => panic!("another error"),
    }
}

#[test]
fn other_messages_are_counted_and_left() {
    let mut state = logged_in();
    let action = state.step(Event::Message(McsMessage::IqStanza(IqStanza::default())));
    assert!(matches!(
        action,
        Action::Listen {
            send: None,
            forget_ids: false,
            wait: Wait::Idle,
            timeout: 60_000
        }
    ));
    assert_eq!(state.last_stream_id_received, 2);
}
