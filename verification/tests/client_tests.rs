use real_time_data_client::client::{new_core, resolve_config, DEFAULT_PING_INTERVAL_MS};
use real_time_data_client::codec::{bytes_eq, classify_frame, decode_frame, ping_frame, FrameClass};
use real_time_data_client::control::{decode_action, encode_action};
use real_time_data_client::machine::{loop_step, LoopAction, LoopEvent, LoopPhase};
use real_time_data_client::model::{
    ClientCommand, ClobApiKeyCreds, ConnectionStatus, GammaAuth, Subscription,
    SubscriptionMessage,
};

fn b(s: &str) -> Vec<u8> {
    s.as_bytes().to_vec()
}

fn simple_message() -> SubscriptionMessage {
    SubscriptionMessage {
        subscriptions: vec![Subscription {
            topic: b("activity"),
            kind: b("trades"),
            filters: None,
            clob_auth: None,
            gamma_auth: None,
        }],
    }
}

fn full_message() -> SubscriptionMessage {
    SubscriptionMessage {
        subscriptions: vec![
            Subscription {
                topic: b("activity"),
                kind: b("trades"),
                filters: Some(b("{\"market\":\"abc\"}")),
                clob_auth: Some(ClobApiKeyCreds {
                    key: b("k-1"),
                    secret: b("s\\2"),
                    passphrase: b("p\"3"),
                }),
                gamma_auth: Some(GammaAuth { address: b("0xabc") }),
            },
            Subscription {
                topic: b("comments"),
                kind: b("all"),
                filters: None,
                clob_auth: None,
                gamma_auth: Some(GammaAuth { address: b("0xdef") }),
            },
        ],
    }
}

#[test]
fn subscribe_action_keeps_subscriptions() {
    let m = simple_message();
    let a = m.to_subscribe_action();
    assert_eq!(a.action, b("subscribe"));
    assert_eq!(a.subscriptions.len(), 1);
    assert_eq!(a.subscriptions[0].topic, b("activity"));
    assert_eq!(a.subscriptions[0].kind, b("trades"));
}

#[test]
fn unsubscribe_action_keeps_subscriptions() {
    let m = simple_message();
    let a = m.to_unsubscribe_action();
    assert_eq!(a.action, b("unsubscribe"));
    assert_eq!(a.subscriptions.len(), 1);
    assert_eq!(a.subscriptions[0].topic, b("activity"));
}

#[test]
fn encode_simple_subscribe_frame_exact() {
    let frame = encode_action(&simple_message().to_subscribe_action());
    assert_eq!(
        frame,
        b("{\"action\":\"subscribe\",\"subscriptions\":[{\"topic\":\"activity\",\"type\":\"trades\"}]}")
    );
}

#[test]
fn encoded_frame_is_valid_json() {
    let frame = encode_action(&full_message().to_subscribe_action());
    let v: serde_json::Value = serde_json::from_slice(&frame).expect("encoder output parses");
    assert_eq!(v.get("action").and_then(|a| a.as_str()), Some("subscribe"));
    let subs = v.get("subscriptions").and_then(|s| s.as_array()).unwrap();
    assert_eq!(subs.len(), 2);
    assert_eq!(subs[0].get("topic").and_then(|t| t.as_str()), Some("activity"));
    assert_eq!(subs[1].get("type").and_then(|t| t.as_str()), Some("all"));
    assert_eq!(
        subs[0].get("clob_auth").and_then(|c| c.get("secret")).and_then(|s| s.as_str()),
        Some("s\\2")
    );
}

#[test]
fn round_trip_simple_subscribe() {
    let a = simple_message().to_subscribe_action();
    let frame = encode_action(&a);
    let back = decode_action(&frame).expect("canonical frame decodes");
    assert_eq!(back.action, b("subscribe"));
    assert_eq!(back.subscriptions.len(), 1);
    assert_eq!(back.subscriptions[0].topic, b("activity"));
    assert_eq!(back.subscriptions[0].kind, b("trades"));
    assert!(back.subscriptions[0].filters.is_none());
}

#[test]
fn round_trip_full_unsubscribe() {
    let a = full_message().to_unsubscribe_action();
    let frame = encode_action(&a);
    let back = decode_action(&frame).expect("canonical frame decodes");
    assert_eq!(back.action, b("unsubscribe"));
    assert_eq!(back.subscriptions.len(), 2);
    let s0 = &back.subscriptions[0];
    assert_eq!(s0.topic, b("activity"));
    assert_eq!(s0.filters.as_ref().unwrap(), &b("{\"market\":\"abc\"}"));
    let creds = s0.clob_auth.as_ref().unwrap();
    assert_eq!(creds.key, b("k-1"));
    assert_eq!(creds.secret, b("s\\2"));
    assert_eq!(creds.passphrase, b("p\"3"));
    assert_eq!(s0.gamma_auth.as_ref().unwrap().address, b("0xabc"));
    let s1 = &back.subscriptions[1];
    assert_eq!(s1.topic, b("comments"));
    assert!(s1.clob_auth.is_none());
    assert_eq!(s1.gamma_auth.as_ref().unwrap().address, b("0xdef"));
}

#[test]
fn round_trip_control_bytes_in_topic() {
    let m = SubscriptionMessage {
        subscriptions: vec![Subscription {
            topic: vec![97, 10, 9, 34, 92, 98, 1],
            kind: b("x"),
            filters: None,
            clob_auth: None,
            gamma_auth: None,
        }],
    };
    let frame = encode_action(&m.to_subscribe_action());
    let back = decode_action(&frame).expect("escaped frame decodes");
    assert_eq!(back.subscriptions[0].topic, vec![97, 10, 9, 34, 92, 98, 1]);
}

#[test]
fn heartbeat_ack_is_discarded() {
    match classify_frame(&b("pong")) {
        FrameClass::HeartbeatAck => {}
        _ => panic!("pong must be the heartbeat acknowledgement"),
    }
}

#[test]
fn ping_frame_literal() {
    assert_eq!(ping_frame(), b("ping"));
}

#[test]
fn unrecognized_frame_is_ignored() {
    match classify_frame(&b("hello there")) {
        FrameClass::Ignored => {}
        _ => panic!("frame without structure must be ignored"),
    }
    match classify_frame(&b("payload but not json")) {
        FrameClass::Ignored => {}
        _ => panic!("frame with marker but no envelope must be ignored"),
    }
}

#[test]
fn data_frame_decodes_exactly() {
    let frame = b(
        "{\"topic\":\"activity\",\"type\":\"trades\",\"timestamp\":1715000000123,\
         \"payload\":{\"name\":\"w\",\"size\":2.5,\"tags\":[1,2]},\"connection_id\":\"c-9\"}",
    );
    match classify_frame(&frame) {
        FrameClass::Data(m) => {
            assert_eq!(m.topic, b("activity"));
            assert_eq!(m.kind, b("trades"));
            assert_eq!(m.timestamp, 1715000000123);
            assert_eq!(m.payload, b("{\"name\":\"w\",\"size\":2.5,\"tags\":[1,2]}"));
            assert_eq!(m.connection_id, b("c-9"));
        }
        _ => panic!("valid envelope must decode"),
    }
}

#[test]
fn envelope_fields_in_any_order_with_extras() {
    let frame = b(
        "{\"connection_id\":\"c\",\"extra\":[true,null],\"payload\":7,\
         \"timestamp\":5,\"type\":\"t\",\"topic\":\"a\"}",
    );
    let m = decode_frame(&frame).expect("order must not matter");
    assert_eq!(m.topic, b("a"));
    assert_eq!(m.payload, b("7"));
    assert_eq!(m.timestamp, 5);
}

#[test]
fn envelope_missing_field_rejected() {
    let frame = b("{\"topic\":\"a\",\"type\":\"t\",\"timestamp\":5,\"payload\":7}");
    assert!(decode_frame(&frame).is_none());
}

#[test]
fn envelope_duplicate_field_rejected() {
    let frame = b(
        "{\"topic\":\"a\",\"topic\":\"b\",\"type\":\"t\",\"timestamp\":5,\
         \"payload\":7,\"connection_id\":\"c\"}",
    );
    assert!(decode_frame(&frame).is_none());
}

#[test]
fn envelope_huge_timestamp_rejected() {
    let frame = b(
        "{\"topic\":\"a\",\"type\":\"t\",\"timestamp\":99999999999999999999999,\
         \"payload\":7,\"connection_id\":\"c\"}",
    );
    assert!(decode_frame(&frame).is_none());
}

#[test]
fn session_trace_delivers_in_order() {
    let f1 = b("{\"topic\":\"a\",\"type\":\"t\",\"timestamp\":1,\"payload\":1,\"connection_id\":\"c\"}");
    let f2 = b("{\"topic\":\"b\",\"type\":\"t\",\"timestamp\":2,\"payload\":2,\"connection_id\":\"c\"}");

    let (phase, acts) = loop_step(LoopPhase::Dialing, LoopEvent::DialOk, true);
    assert_eq!(phase, LoopPhase::SessionActive);
    assert_eq!(acts.len(), 2);
    assert!(matches!(
        acts[0],
        LoopAction::NotifyStatus(ConnectionStatus::Connected)
    ));
    assert!(matches!(acts[1], LoopAction::NotifyConnect));

    let (phase, acts) = loop_step(phase, LoopEvent::TextFrame(f1), true);
    assert_eq!(phase, LoopPhase::SessionActive);
    assert_eq!(acts.len(), 1);
    match &acts[0] {
        LoopAction::NotifyMessage(m) => assert_eq!(m.topic, b("a")),
        _ => panic!("first frame must be delivered"),
    }

    let (phase, acts) = loop_step(phase, LoopEvent::TextFrame(f2), true);
    assert_eq!(phase, LoopPhase::SessionActive);
    match &acts[0] {
        LoopAction::NotifyMessage(m) => assert_eq!(m.topic, b("b")),
        _ => panic!("second frame must be delivered"),
    }

    let (phase, acts) = loop_step(phase, LoopEvent::CloseFrame, true);
    assert_eq!(phase, LoopPhase::Dialing);
    assert_eq!(acts.len(), 2);
    assert!(matches!(
        acts[0],
        LoopAction::NotifyStatus(ConnectionStatus::Disconnected)
    ));
    assert!(matches!(acts[1], LoopAction::Backoff));
}

#[test]
fn session_close_without_reconnect_terminates() {
    let (phase, acts) = loop_step(LoopPhase::SessionActive, LoopEvent::CloseFrame, false);
    assert_eq!(phase, LoopPhase::Terminated);
    assert_eq!(acts.len(), 1);
    assert!(matches!(
        acts[0],
        LoopAction::NotifyStatus(ConnectionStatus::Disconnected)
    ));
}

#[test]
fn pong_frame_never_reaches_callback() {
    let (phase, acts) = loop_step(LoopPhase::SessionActive, LoopEvent::TextFrame(b("pong")), true);
    assert_eq!(phase, LoopPhase::SessionActive);
    assert!(acts.is_empty());
}

#[test]
fn garbage_frame_keeps_session() {
    let (phase, acts) =
        loop_step(LoopPhase::SessionActive, LoopEvent::TextFrame(b("{broken")), true);
    assert_eq!(phase, LoopPhase::SessionActive);
    assert!(acts.is_empty());
}

#[test]
fn dial_failures_retry_with_backoff() {
    let mut phase = LoopPhase::Dialing;
    for _ in 0..3 {
        let (next, acts) = loop_step(phase, LoopEvent::DialFailed, true);
        assert_eq!(next, LoopPhase::Dialing);
        assert_eq!(acts.len(), 2);
        assert!(matches!(
            acts[0],
            LoopAction::NotifyStatus(ConnectionStatus::Disconnected)
        ));
        assert!(matches!(acts[1], LoopAction::Backoff));
        phase = next;
    }
}

#[test]
fn dial_failure_without_reconnect_terminates() {
    let (phase, acts) = loop_step(LoopPhase::Dialing, LoopEvent::DialFailed, false);
    assert_eq!(phase, LoopPhase::Terminated);
    assert_eq!(acts.len(), 1);
    let (phase, acts) = loop_step(phase, LoopEvent::DialFailed, false);
    assert_eq!(phase, LoopPhase::Terminated);
    assert!(acts.is_empty());
}

#[test]
fn disconnect_always_wins() {
    for reconnect in [true, false] {
        let (phase, acts) = loop_step(
            LoopPhase::SessionActive,
            LoopEvent::Command(ClientCommand::Disconnect),
            reconnect,
        );
        assert_eq!(phase, LoopPhase::Terminated);
        assert_eq!(acts.len(), 2);
        assert!(matches!(acts[0], LoopAction::CloseTransport));
        assert!(matches!(
            acts[1],
            LoopAction::NotifyStatus(ConnectionStatus::Disconnected)
        ));
        let (phase, acts) = loop_step(phase, LoopEvent::HeartbeatTick, reconnect);
        assert_eq!(phase, LoopPhase::Terminated);
        assert!(acts.is_empty());
    }
}

#[test]
fn subscribe_command_sends_control_frame() {
    let (phase, acts) = loop_step(
        LoopPhase::SessionActive,
        LoopEvent::Command(ClientCommand::Subscribe(simple_message())),
        true,
    );
    assert_eq!(phase, LoopPhase::SessionActive);
    assert_eq!(acts.len(), 1);
    match &acts[0] {
        LoopAction::SendControl(a) => {
            assert_eq!(a.action, b("subscribe"));
            assert_eq!(a.subscriptions[0].topic, b("activity"));
        }
        _ => panic!("subscribe must send a control frame"),
    }
}

#[test]
fn heartbeat_send_failure_reconnects() {
    // Heartbeat interval shortened in the harness; three failed cycles, each
    // tearing the session down and re-entering the dialing phase.
    let config = resolve_config(None, Some(50), Some(true));
    assert_eq!(config.ping_interval_ms, 50);
    let mut phase = LoopPhase::SessionActive;
    for _ in 0..3 {
        let (next, acts) = loop_step(phase, LoopEvent::HeartbeatTick, true);
        assert_eq!(next, LoopPhase::SessionActive);
        assert!(matches!(acts[0], LoopAction::SendPing));
        let (next, acts) = loop_step(next, LoopEvent::PingSendFailed, true);
        assert_eq!(next, LoopPhase::Dialing);
        assert!(matches!(
            acts[0],
            LoopAction::NotifyStatus(ConnectionStatus::Disconnected)
        ));
        assert!(matches!(acts[1], LoopAction::Backoff));
        let (next, acts) = loop_step(next, LoopEvent::DialOk, true);
        assert_eq!(next, LoopPhase::SessionActive);
        assert!(matches!(
            acts[0],
            LoopAction::NotifyStatus(ConnectionStatus::Connected)
        ));
        phase = next;
    }
}

#[test]
fn config_defaults() {
    let c = resolve_config(None, None, None);
    assert_eq!(c.host, "wss://ws-live-data.polymarket.com");
    assert_eq!(c.ping_interval_ms, DEFAULT_PING_INTERVAL_MS);
    assert!(c.auto_reconnect);
    let c = resolve_config(Some("wss://example.invalid".to_string()), Some(9), Some(false));
    assert_eq!(c.host, "wss://example.invalid");
    assert_eq!(c.ping_interval_ms, 9);
    assert!(!c.auto_reconnect);
}

#[test]
fn subscribe_before_connect_is_silent() {
    let core = new_core(true);
    assert!(core.subscribe_requested(simple_message()).is_none());
    assert!(core.unsubscribe_requested(simple_message()).is_none());
}

#[test]
fn disconnect_clears_reconnect_flag() {
    let mut core = new_core(true);
    assert!(core.reconnect);
    let cmd = core.disconnect_requested();
    assert!(!core.reconnect);
    assert!(cmd.is_none());

    let mut core = new_core(true);
    let status = core.connect_requested();
    assert_eq!(status, ConnectionStatus::Connecting);
    let cmd = core.disconnect_requested();
    assert!(!core.reconnect);
    assert!(matches!(cmd, Some(ClientCommand::Disconnect)));
}

#[test]
fn subscribe_after_connect_issues_command() {
    let mut core = new_core(true);
    core.connect_requested();
    match core.subscribe_requested(simple_message()) {
        Some(ClientCommand::Subscribe(m)) => {
            assert_eq!(m.subscriptions[0].topic, b("activity"))
        }
        _ => panic!("subscribe with a channel must issue the command"),
    }
}

#[test]
fn status_labels() {
    assert_eq!(ConnectionStatus::Connecting.label(), "CONNECTING");
    assert_eq!(ConnectionStatus::Connected.label(), "CONNECTED");
    assert_eq!(ConnectionStatus::Disconnected.label(), "DISCONNECTED");
}

#[test]
fn bytes_eq_compares_contents() {
    assert!(bytes_eq(&b("ping"), &b("ping")));
    assert!(!bytes_eq(&b("ping"), &b("pong")));
    assert!(!bytes_eq(&b("ping"), &b("pin")));
}

#[test]
fn cloned_message_is_independent() {
    let m = full_message();
    let copy = m.clone();
    assert_eq!(copy.subscriptions.len(), m.subscriptions.len());
    assert_eq!(copy.subscriptions[0].topic, m.subscriptions[0].topic);
    assert_eq!(
        copy.subscriptions[0].clob_auth.as_ref().unwrap().secret,
        m.subscriptions[0].clob_auth.as_ref().unwrap().secret
    );
}
