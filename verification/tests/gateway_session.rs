use raftbot::gateway::{
    after_run, reconnect_delay, DiscordEvent, EventType, GatewayAction, Opcode, Session,
    SessionEventKind, SessionPhase, GATEWAY_INTENTS, STEADY_PAUSE_SECONDS,
};

fn frame(op: u8, s: Option<u64>, t: Option<&str>) -> DiscordEvent {
    DiscordEvent {
        op,
        s,
        t: t.map(|x| x.to_string()),
        heartbeat_interval: None,
        session_id: None,
        user_id: None,
    }
}

fn hello(interval: u64) -> DiscordEvent {
    DiscordEvent { heartbeat_interval: Some(interval), ..frame(10, None, None) }
}

fn ready(s: u64, session: &str, user: &str) -> DiscordEvent {
    DiscordEvent {
        session_id: Some(session.to_string()),
        user_id: Some(user.to_string()),
        ..frame(0, Some(s), Some("READY"))
    }
}

fn fresh() -> Session {
    let mut s = Session::restore(None, None, None);
    s.connected();
    s
}

#[test]
fn opcodes_by_number() {
    assert_eq!(Opcode::from_u8(0), Opcode::Dispatch);
    assert_eq!(Opcode::from_u8(1), Opcode::Heartbeat);
    assert_eq!(Opcode::from_u8(2), Opcode::Identify);
    assert_eq!(Opcode::from_u8(6), Opcode::Resume);
    assert_eq!(Opcode::from_u8(9), Opcode::InvalidSession);
    assert_eq!(Opcode::from_u8(10), Opcode::Hello);
    assert_eq!(Opcode::from_u8(11), Opcode::HeartbeatAck);
    for op in [3u8, 4, 5, 7, 8, 12, 255] {
        assert_eq!(Opcode::from_u8(op), Opcode::Unknown);
    }
    for op in 0..=255u8 {
        if let Some(code) = Opcode::from_u8(op).code() {
            assert_eq!(code, op);
        }
    }
    assert_eq!(Opcode::Unknown.code(), None);
    assert_eq!(Opcode::Resume.code(), Some(6));
}

#[test]
fn event_types_by_name() {
    assert_eq!(EventType::from_str("READY"), EventType::Ready);
    assert_eq!(EventType::from_str("RESUMED"), EventType::Resumed);
    assert_eq!(EventType::from_str("INTERACTION_CREATE"), EventType::InteractionCreate);
    assert_eq!(EventType::from_str("MESSAGE_CREATE"), EventType::MessageCreate);
    assert_eq!(EventType::from_str("ready"), EventType::Unknown);
    assert_eq!(EventType::from_str(""), EventType::Unknown);
    assert_eq!(frame(0, None, None).event_type(), EventType::Unknown);
    assert_eq!(frame(0, None, Some("READY")).event_type(), EventType::Ready);
    assert_eq!(frame(10, None, None).opcode(), Opcode::Hello);
}

#[test]
fn resume_on_reconnect() {
    let mut s = Session::restore(Some("S".to_string()), Some(42), Some("bot".to_string()));
    assert_eq!(s.phase, SessionPhase::Disconnected);
    s.connected();
    let actions = s.on_frame(&hello(41_250));
    assert_eq!(
        actions,
        vec![
            GatewayAction::Log {
                kind: SessionEventKind::Resume,
                with_session: true,
                sequence: Some(42)
            },
            GatewayAction::SendResume { sequence: Some(42) },
            GatewayAction::StartHeartbeat { interval_ms: 41_250 },
        ]
    );
    assert!(!actions.iter().any(|a| matches!(a, GatewayAction::SendIdentify { .. })));
    assert_eq!(s.phase, SessionPhase::Resuming);
    assert_eq!(s.session_id.as_deref(), Some("S"));

    let actions = s.on_frame(&frame(9, None, None));
    assert_eq!(
        actions,
        vec![
            GatewayAction::Log {
                kind: SessionEventKind::InvalidSession,
                with_session: false,
                sequence: None
            },
            GatewayAction::PersistState,
            GatewayAction::Close,
        ]
    );
    assert_eq!(s.session_id, None);
    assert_eq!(s.sequence, None);
    assert_eq!(s.phase, SessionPhase::Invalidated);
}

#[test]
fn identify_without_a_session() {
    let mut s = fresh();
    let actions = s.on_frame(&hello(45_000));
    assert_eq!(
        actions,
        vec![
            GatewayAction::Log {
                kind: SessionEventKind::Identify,
                with_session: false,
                sequence: None
            },
            GatewayAction::SendIdentify { intents: 33280 },
            GatewayAction::StartHeartbeat { interval_ms: 45_000 },
        ]
    );
    assert_eq!(GATEWAY_INTENTS, 0x8200);
    assert_eq!(s.phase, SessionPhase::Identifying);
    assert_eq!(s.heartbeat_interval, Some(45_000));
}

#[test]
fn hello_without_a_period_is_not_answered() {
    let mut s = fresh();
    assert!(s.on_frame(&frame(10, None, None)).is_empty());
    assert_eq!(s.phase, SessionPhase::HelloWait);
    // a second hello on a live connection is passed over
    s.on_frame(&hello(10));
    assert!(s.on_frame(&hello(20)).is_empty());
    assert_eq!(s.heartbeat_interval, Some(10));
}

#[test]
fn hello_with_period_zero_is_answered_with_the_shortest_period() {
    let mut s = Session::restore(Some("S".to_string()), Some(42), None);
    s.connected();
    assert_eq!(
        s.on_frame(&hello(0)),
        vec![
            GatewayAction::Log {
                kind: SessionEventKind::Resume,
                with_session: true,
                sequence: Some(42)
            },
            GatewayAction::SendResume { sequence: Some(42) },
            GatewayAction::StartHeartbeat { interval_ms: 1 },
        ]
    );
    assert_eq!(s.phase, SessionPhase::Resuming);
    let mut fresh_session = fresh();
    let actions = fresh_session.on_frame(&hello(0));
    assert!(actions.contains(&GatewayAction::SendIdentify { intents: 33280 }));
    assert!(actions.contains(&GatewayAction::StartHeartbeat { interval_ms: 1 }));
}

#[test]
fn ready_keeps_session_and_user() {
    let mut s = fresh();
    s.on_frame(&hello(1000));
    let actions = s.on_frame(&ready(1, "sess-1", "bot-7"));
    assert_eq!(
        actions,
        vec![
            GatewayAction::PersistState,
            GatewayAction::PersistState,
            GatewayAction::Log { kind: SessionEventKind::Ready, with_session: true, sequence: None },
        ]
    );
    assert_eq!(s.phase, SessionPhase::Established);
    assert_eq!(s.session_id.as_deref(), Some("sess-1"));
    assert_eq!(s.bot_user_id.as_deref(), Some("bot-7"));
    assert_eq!(s.sequence, Some(1));
}

#[test]
fn sequence_is_persisted_before_the_frame_is_acted_upon() {
    let mut s = fresh();
    s.on_frame(&hello(1000));
    let actions = s.on_frame(&frame(0, Some(7), Some("MESSAGE_CREATE")));
    assert_eq!(actions, vec![GatewayAction::PersistState, GatewayAction::RouteMessage]);
    assert_eq!(s.sequence, Some(7));
    let actions = s.on_frame(&frame(0, Some(8), Some("INTERACTION_CREATE")));
    assert_eq!(actions, vec![GatewayAction::PersistState, GatewayAction::RouteInteraction]);
    let actions = s.on_frame(&frame(0, Some(9), Some("RESUMED")));
    assert_eq!(
        actions,
        vec![
            GatewayAction::PersistState,
            GatewayAction::Log {
                kind: SessionEventKind::Resumed,
                with_session: false,
                sequence: None
            },
        ]
    );
    assert_eq!(s.on_frame(&frame(0, Some(10), Some("TYPING_START"))), vec![GatewayAction::PersistState]);
    assert!(s.on_frame(&frame(11, None, None)).is_empty());
    assert_eq!(s.sequence, Some(10));
}

#[test]
fn heartbeat_carries_the_latest_sequence() {
    let mut s = fresh();
    assert!(s.on_heartbeat_tick().is_empty());
    s.on_frame(&hello(1000));
    assert_eq!(
        s.on_heartbeat_tick(),
        vec![GatewayAction::SendHeartbeat { sequence: None }, GatewayAction::CountHeartbeat]
    );
    s.on_frame(&frame(0, Some(5), Some("MESSAGE_CREATE")));
    s.on_frame(&frame(11, None, None));
    assert_eq!(
        s.on_heartbeat_tick(),
        vec![GatewayAction::SendHeartbeat { sequence: Some(5) }, GatewayAction::CountHeartbeat]
    );
    s.on_frame(&frame(0, Some(6), Some("MESSAGE_CREATE")));
    match s.on_heartbeat_tick()[0] {
        GatewayAction::SendHeartbeat { sequence: Some(n) } => assert!(n >= 6),
        other => panic!("{:?}", other),
    }
}

#[test]
fn frames_before_hello_only_move_the_sequence() {
    let mut s = fresh();
    assert_eq!(s.on_frame(&frame(0, Some(3), Some("READY"))), vec![GatewayAction::PersistState]);
    assert_eq!(s.phase, SessionPhase::HelloWait);
    assert_eq!(s.sequence, Some(3));
    assert!(s.on_frame(&frame(9, None, None)).is_empty());
    assert_eq!(s.sequence, Some(3));
}

#[test]
fn disconnect_keeps_the_session_for_resume() {
    let mut s = fresh();
    s.on_frame(&hello(1000));
    s.on_frame(&ready(1, "sess", "bot"));
    s.on_frame(&frame(0, Some(2), Some("MESSAGE_CREATE")));
    s.disconnected();
    assert_eq!(s.phase, SessionPhase::Disconnected);
    assert!(s.on_heartbeat_tick().is_empty());
    s.connected();
    let actions = s.on_frame(&hello(1000));
    assert!(actions.contains(&GatewayAction::SendResume { sequence: Some(2) }));
}

#[test]
fn session_helpers() {
    let mut s = Session::restore(Some("a".to_string()), Some(1), None);
    s.update_sequence(None);
    assert_eq!(s.sequence, Some(1));
    s.update_sequence(Some(9));
    assert_eq!(s.sequence, Some(9));
    s.clear_session();
    assert_eq!(s.session_id, None);
    assert_eq!(s.sequence, None);
    assert!(SessionPhase::Established.is_live());
    assert!(SessionPhase::Identifying.is_live());
    assert!(SessionPhase::Resuming.is_live());
    assert!(!SessionPhase::HelloWait.is_live());
    assert!(!SessionPhase::Invalidated.is_live());
    assert_eq!(SessionEventKind::InvalidSession.as_str(), "invalid_session");
    assert_eq!(SessionEventKind::Identify.as_str(), "identify");
    assert_eq!(SessionEventKind::Resume.as_str(), "resume");
    assert_eq!(SessionEventKind::Resumed.as_str(), "resumed");
    assert_eq!(SessionEventKind::Ready.as_str(), "ready");
}

#[test]
fn reconnect_delays_are_bounded() {
    let delays: Vec<u64> = (1..=8).map(reconnect_delay).collect();
    assert_eq!(delays, vec![30, 30, 60, 60, 120, 120, 300, 300]);
    assert_eq!(reconnect_delay(0), 30);
    assert_eq!(reconnect_delay(u32::MAX), 300);
}

#[test]
fn steady_run_resets_the_failures() {
    assert_eq!(after_run(0, false), (1, 30));
    assert_eq!(after_run(2, false), (3, 60));
    assert_eq!(after_run(6, false), (7, 300));
    assert_eq!(after_run(u32::MAX, false), (u32::MAX, 300));
    assert_eq!(after_run(5, true), (0, STEADY_PAUSE_SECONDS));
    assert_eq!(STEADY_PAUSE_SECONDS, 5);
}

#[test]
fn ready_without_session_id_still_keeps_the_user() {
    let mut s = fresh();
    s.on_frame(&hello(1000));
    let mut event = ready(1, "x", "bot-9");
    event.session_id = None;
    event.s = None;
    assert_eq!(s.on_frame(&event), vec![GatewayAction::PersistState]);
    assert_eq!(s.bot_user_id.as_deref(), Some("bot-9"));
    assert_eq!(s.session_id, None);
    let mut bare = ready(2, "x", "y");
    bare.session_id = None;
    bare.user_id = None;
    bare.s = None;
    assert!(s.on_frame(&bare).is_empty());
    assert_eq!(s.phase, SessionPhase::Established);
}
