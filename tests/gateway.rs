use descord::gateway::{Connection, ConnectionError, Frame, OpCode, Phase, Step};
use descord::session::{GatewayCommand, Heartbeat, SessionState};

fn hello(ms: u64) -> Option<Frame> {
    Some(Frame { op: OpCode::Hello, sequence: None, heartbeat_interval: Some(ms) })
}

fn dispatch(seq: u64) -> Option<Frame> {
    Some(Frame { op: OpCode::Dispatch, sequence: Some(seq), heartbeat_interval: None })
}

fn reconnect() -> Option<Frame> {
    Some(Frame { op: OpCode::Reconnect, sequence: None, heartbeat_interval: None })
}

#[test]
fn hello_first_starts_one_handshake() {
    let mut c = Connection::new("tok".to_string(), 513);
    let mut handshakes = 0;
    for f in [hello(41250), hello(1000), dispatch(1), None] {
        match c.on_frame(f) {
            Step::Handshake { heartbeat_interval, identify } => {
                handshakes += 1;
                assert_eq!(heartbeat_interval, 41250);
                match identify {
                    GatewayCommand::Identify { token, intents } => {
                        assert_eq!(token, "tok");
                        assert_eq!(intents, 513);
                    }
                    _ => panic!("expected identify"),
                }
            }
            _ => {}
        }
    }
    assert_eq!(handshakes, 1);
    assert!(matches!(c.phase, Phase::Running));
}

#[test]
fn other_first_frame_is_fatal() {
    let mut c = Connection::new("tok".to_string(), 0);
    let r = c.on_frame(dispatch(1));
    assert!(matches!(r, Step::Fatal { error: ConnectionError::ProtocolViolation }));
    assert!(matches!(c.phase, Phase::Closed));
    assert!(matches!(c.on_frame(hello(10)), Step::Skip));
    assert_eq!(c.session.sequence, 0);
}

#[test]
fn malformed_first_frame_is_fatal() {
    let mut c = Connection::new("tok".to_string(), 0);
    assert!(matches!(c.on_frame(None), Step::Fatal { error: ConnectionError::ProtocolViolation }));
    let mut d = Connection::new("tok".to_string(), 0);
    let no_interval = Some(Frame { op: OpCode::Hello, sequence: None, heartbeat_interval: None });
    assert!(matches!(d.on_frame(no_interval), Step::Fatal { .. }));
}

#[test]
fn dispatch_records_sequence() {
    let mut c = Connection::new("tok".to_string(), 0);
    c.on_frame(hello(10));
    for s in [1u64, 2, 5, 9] {
        assert!(matches!(c.on_frame(dispatch(s)), Step::Dispatch { sequence } if sequence == s));
        assert_eq!(c.session.sequence, s);
    }
    assert!(matches!(c.on_frame(None), Step::Skip));
    let ack = Some(Frame { op: OpCode::HeartbeatAck, sequence: None, heartbeat_interval: None });
    assert!(matches!(c.on_frame(ack), Step::Skip));
    assert_eq!(c.session.sequence, 9);
}

#[test]
fn reconnect_resumes_with_last_sequence() {
    let mut c = Connection::new("tok".to_string(), 0);
    c.on_frame(hello(10));
    assert!(matches!(c.on_frame(reconnect()), Step::Skip));
    c.session.record_ready("wss://resume.example".to_string(), "sess".to_string(), 77);
    c.on_frame(dispatch(42));
    match c.on_frame(reconnect()) {
        Step::Resume { plan } => {
            assert_eq!(plan.url, "wss://resume.example");
            match plan.command {
                GatewayCommand::Resume { token, session_id, sequence } => {
                    assert_eq!(token, "tok");
                    assert_eq!(session_id, "sess");
                    assert_eq!(sequence, 42);
                }
                _ => panic!("expected resume"),
            }
        }
        _ => panic!("expected a resume step"),
    }
}

#[test]
fn opcodes_decode() {
    assert!(matches!(OpCode::from_code(0), Some(OpCode::Dispatch)));
    assert!(matches!(OpCode::from_code(7), Some(OpCode::Reconnect)));
    assert!(matches!(OpCode::from_code(10), Some(OpCode::Hello)));
    assert!(matches!(OpCode::from_code(11), Some(OpCode::HeartbeatAck)));
    assert!(OpCode::from_code(5).is_none());
    assert!(OpCode::from_code(12).is_none());
}

#[test]
fn session_ready_and_resume_plan() {
    let mut s = SessionState::new();
    assert!(s.resume_plan(&"tok".to_string()).is_none());
    s.record_dispatch(3);
    s.record_ready("wss://r".to_string(), "id".to_string(), 5);
    assert_eq!(s.sequence, 3);
    assert_eq!(s.bot_user_id, Some(5));
    let plan = s.resume_plan(&"tok".to_string()).unwrap();
    assert_eq!(plan.url, "wss://r");
}

#[test]
fn heartbeat_carries_session_sequence() {
    let h = Heartbeat::new(1000);
    let mut s = SessionState::new();
    assert!(matches!(h.beat(&s), GatewayCommand::Heartbeat { sequence: 0 }));
    s.record_dispatch(7);
    assert!(matches!(h.beat(&s), GatewayCommand::Heartbeat { sequence: 7 }));
    assert!(matches!(h.beat(&s), GatewayCommand::Heartbeat { sequence: 7 }));
    assert_eq!(h.interval_ms, 1000);
}

#[test]
fn dispatch_without_sequence_keeps_it() {
    let mut c = Connection::new("tok".to_string(), 0);
    c.on_frame(hello(10));
    c.on_frame(dispatch(4));
    let bare = Some(Frame { op: OpCode::Dispatch, sequence: None, heartbeat_interval: None });
    assert!(matches!(c.on_frame(bare), Step::Dispatch { sequence: 4 }));
    assert_eq!(c.session.sequence, 4);
}

#[test]
fn sequence_is_max_with_other_frames_between() {
    let mut c = Connection::new("tok".to_string(), 0);
    c.on_frame(hello(10));
    let ack = Some(Frame { op: OpCode::HeartbeatAck, sequence: None, heartbeat_interval: None });
    for f in [dispatch(2), None, ack, dispatch(6)] {
        c.on_frame(f);
    }
    assert_eq!(c.session.sequence, 6);
}

#[test]
fn transport_end_and_heartbeat_failure_are_fatal() {
    let mut c = Connection::new("tok".to_string(), 0);
    c.on_frame(hello(10));
    c.on_frame(dispatch(3));
    assert!(matches!(c.on_heartbeat_failure(), Step::Fatal { error: ConnectionError::HeartbeatFailed }));
    assert!(matches!(c.phase, Phase::Closed));
    assert_eq!(c.session.sequence, 3);
    let mut d = Connection::new("tok".to_string(), 0);
    assert!(matches!(d.on_transport_end(), Step::Fatal { error: ConnectionError::Network }));
    assert!(matches!(d.phase, Phase::Closed));
}
