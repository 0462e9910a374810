use mcproxy::error::ProtocolError;
use mcproxy::routes::{IpAddress, RouteTable, SocketAddress};
use mcproxy::session::{
    frame_length, pipe_step, route_frame, LengthStatus, PipeAction, PipeEvent, Routing, Session, SessionAction,
    SessionError, SessionEvent, SessionOutcome,
};

fn example_payload() -> Vec<u8> {
    let mut p = vec![0x00, 0xf8, 0x05, 16];
    p.extend_from_slice(b"play.example.com");
    p.extend_from_slice(&[0x63, 0xdd, 0x02]);
    p
}

fn backend() -> SocketAddress {
    SocketAddress { ip: IpAddress::V4(0x0a00_0005), port: 25565 }
}

fn table() -> RouteTable {
    let mut t = RouteTable::new();
    t.register("play.example.com".to_string(), backend());
    t
}

#[test]
fn example_scenario_forwards_exact_frame() {
    let payload = example_payload();
    let mut wire = vec![23u8];
    wire.extend_from_slice(&payload);
    assert_eq!(frame_length(&wire[..1]), LengthStatus::Ready { prefix_len: 1, length: 23 });
    match route_frame(payload.clone(), &table()) {
        Routing::Forward { backend: b, frame } => {
            assert_eq!(b, backend());
            assert_eq!(frame, wire);
            assert_eq!(frame.len(), 24);
        }
        _ => panic!("expected the frame to be forwarded"),
    }
}

#[test]
fn trailing_bytes_are_forwarded_verbatim() {
    let mut payload = example_payload();
    payload.extend(0..200u8);
    let mut expected = vec![0xdf, 0x01];
    expected.extend_from_slice(&payload);
    match route_frame(payload, &table()) {
        Routing::Forward { frame, .. } => assert_eq!(frame, expected),
        _ => panic!("expected the frame to be forwarded"),
    }
}

#[test]
fn nonzero_packet_id_is_not_forwarded() {
    let mut payload = example_payload();
    payload[0] = 1;
    assert!(matches!(route_frame(payload, &table()), Routing::NotHandshake));
}

#[test]
fn unknown_hostname_is_not_forwarded() {
    let payload = example_payload();
    assert!(matches!(route_frame(payload, &RouteTable::new()), Routing::UnknownHost));
}

#[test]
fn malformed_frame_is_rejected() {
    let payload = vec![0x00, 0xf8, 0x05, 20, b'p'];
    assert!(matches!(route_frame(payload, &table()), Routing::Rejected(ProtocolError::Truncated)));
    let payload = vec![0x00, 0xf8, 0x05, 1, 0xff];
    assert!(matches!(route_frame(payload, &table()), Routing::Rejected(ProtocolError::InvalidEncoding)));
}

#[test]
fn frame_length_needs_more_bytes() {
    assert_eq!(frame_length(&[]), LengthStatus::NeedMore);
    assert_eq!(frame_length(&[0x80]), LengthStatus::NeedMore);
    assert_eq!(frame_length(&[0x80, 0x01]), LengthStatus::Ready { prefix_len: 2, length: 128 });
}

#[test]
fn frame_length_rejects_bad_prefixes() {
    assert_eq!(frame_length(&[0xff, 0xff, 0xff, 0xff, 0x0f]), LengthStatus::Invalid(ProtocolError::NegativeLength));
    assert_eq!(frame_length(&[0x80, 0x80, 0x80, 0x80, 0x80]), LengthStatus::Invalid(ProtocolError::VarIntTooLong));
}

#[test]
fn pipe_forwards_until_end_or_error() {
    assert_eq!(pipe_step(PipeEvent::Received(1536)), PipeAction::Forward(1536));
    assert_eq!(pipe_step(PipeEvent::Received(0)), PipeAction::Finish);
    assert_eq!(pipe_step(PipeEvent::ReadFailed), PipeAction::Finish);
    assert_eq!(pipe_step(PipeEvent::WriteFailed), PipeAction::Finish);
}

fn run_to_dial(payload: Vec<u8>, t: &RouteTable) -> (Session, SessionAction) {
    let (mut s, a) = Session::start();
    assert!(matches!(a, SessionAction::ReadByte));
    let a = s.step(SessionEvent::Byte(payload.len() as u8), t);
    match a {
        SessionAction::ReadPayload(n) => assert_eq!(n, payload.len()),
        _ => panic!("expected a payload read"),
    }
    let a = s.step(SessionEvent::Payload(payload), t);
    (s, a)
}

#[test]
fn session_example_scenario() {
    let t = table();
    let payload = example_payload();
    let (mut s, a) = run_to_dial(payload.clone(), &t);
    match a {
        SessionAction::Dial(b) => assert_eq!(b, backend()),
        _ => panic!("expected a dial"),
    }
    match s.step(SessionEvent::Dialed, &t) {
        SessionAction::Write(frame) => {
            let mut wire = vec![23u8];
            wire.extend_from_slice(&payload);
            assert_eq!(frame, wire);
        }
        _ => panic!("expected a write"),
    }
    assert!(matches!(s.step(SessionEvent::Written, &t), SessionAction::Relay));
    assert!(!s.closed());
    assert!(matches!(s.step(SessionEvent::RelayEnded, &t), SessionAction::Close));
    assert!(matches!(s, Session::Closed(SessionOutcome::Finished)));
}

#[test]
fn session_with_packet_id_one_never_dials() {
    let mut payload = example_payload();
    payload[0] = 1;
    let (s, a) = run_to_dial(payload, &table());
    assert!(matches!(a, SessionAction::Close));
    assert!(matches!(s, Session::Closed(SessionOutcome::NotHandshake)));
}

#[test]
fn session_with_unknown_host_never_dials() {
    let (s, a) = run_to_dial(example_payload(), &RouteTable::new());
    assert!(matches!(a, SessionAction::Close));
    assert!(matches!(s, Session::Closed(SessionOutcome::UnknownHost)));
}

#[test]
fn session_reads_multi_byte_length() {
    let t = table();
    let (mut s, _) = Session::start();
    assert!(matches!(s.step(SessionEvent::Byte(0x80), &t), SessionAction::ReadByte));
    assert!(matches!(s.step(SessionEvent::Byte(0x01), &t), SessionAction::ReadPayload(128)));
}

#[test]
fn session_failures_close() {
    let t = table();
    let (mut s, _) = Session::start();
    assert!(matches!(s.step(SessionEvent::ReadFailed, &t), SessionAction::Close));
    assert!(matches!(s, Session::Closed(SessionOutcome::Failed(SessionError::ClientIo))));

    let (mut s, _) = Session::start();
    for _ in 0..4 {
        assert!(matches!(s.step(SessionEvent::Byte(0xff), &t), SessionAction::ReadByte));
    }
    assert!(matches!(s.step(SessionEvent::Byte(0x0f), &t), SessionAction::Close));
    assert!(matches!(s, Session::Closed(SessionOutcome::Failed(SessionError::Protocol(ProtocolError::NegativeLength)))));

    let (mut s, _) = run_to_dial(example_payload(), &t);
    assert!(matches!(s.step(SessionEvent::DialFailed, &t), SessionAction::Close));
    assert!(matches!(s, Session::Closed(SessionOutcome::Failed(SessionError::BackendUnreachable))));

    let (mut s, _) = run_to_dial(example_payload(), &t);
    s.step(SessionEvent::Dialed, &t);
    assert!(matches!(s.step(SessionEvent::WriteFailed, &t), SessionAction::Close));
    assert!(matches!(s, Session::Closed(SessionOutcome::Failed(SessionError::BackendIo))));
}

#[test]
fn session_rejects_malformed_payload() {
    let (s, a) = run_to_dial(vec![0x00, 0xf8, 0x05, 20, b'p'], &table());
    assert!(matches!(a, SessionAction::Close));
    assert!(matches!(s, Session::Closed(SessionOutcome::Failed(SessionError::Protocol(ProtocolError::Truncated)))));
}
