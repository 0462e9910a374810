//! The decisions of one proxy session. `Session::step` takes each I/O result
//! and names the next I/O to perform; the caller performs it. Relaying is
//! decided per direction by `pipe_step`.
use vstd::prelude::*;

use crate::error::ProtocolError;
use crate::handshake::{handshake_spec, parse_handshake};
use crate::routes::{route_of, RouteTable, SocketAddress};
use crate::varint::{decode_spec, decode_varint, varint_encoding, write_varint};

verus! {

/// What the bytes read so far of a frame's length prefix tell.
#[derive(Clone, Copy, Debug, PartialEq, Eq, Structural)]
pub enum LengthStatus {
    /// The prefix is not complete: read another byte.
    NeedMore,
    /// The prefix is complete; it used `prefix_len` bytes and declares a
    /// payload of `length` bytes.
    Ready { prefix_len: usize, length: usize },
    /// The prefix can never become valid.
    Invalid(ProtocolError),
}

/// Where a session goes once its first frame has been read.
pub enum Routing {
    /// Dial `backend` and write `frame` to it, then relay.
    Forward { backend: SocketAddress, frame: Vec<u8> },
    /// The frame is not a handshake: close silently.
    NotHandshake,
    /// No backend is registered for the hostname: close silently.
    UnknownHost,
    /// The frame is malformed: close and report.
    Rejected(ProtocolError),
}

/// What one read of a relay direction brought.
#[derive(Clone, Copy, Debug, PartialEq, Eq, Structural)]
pub enum PipeEvent {
    /// `n` bytes arrived, `n` possibly zero (end of stream).
    Received(usize),
    /// The read failed.
    ReadFailed,
    /// Writing the previous chunk to the other side failed.
    WriteFailed,
}

/// What a relay direction does next.
#[derive(Clone, Copy, Debug, PartialEq, Eq, Structural)]
pub enum PipeAction {
    /// Write the `n` bytes just received to the other side, then read again.
    Forward(usize),
    /// Stop this direction, shut down the other side's writing half, and end
    /// the relay, closing both connections.
    Finish,
}

/// The status of a length prefix, from the bytes of it read so far.
pub open spec fn length_status_spec(prefix: Seq<u8>) -> LengthStatus {
    match decode_spec(prefix) {
        Ok((v, n)) => if v < 0 {
            LengthStatus::Invalid(ProtocolError::NegativeLength)
        } else {
            LengthStatus::Ready { prefix_len: n as usize, length: v as usize }
        },
        Err(ProtocolError::UnexpectedEof) => LengthStatus::NeedMore,
        Err(e) => LengthStatus::Invalid(e),
    }
}

/// Reads the length prefix of a frame from the bytes received so far.
pub fn frame_length(prefix: &[u8]) -> (r: LengthStatus)
    ensures
        r == length_status_spec(prefix@),
{
    match decode_varint(prefix) {
        Ok((v, n)) => if v < 0 {
            LengthStatus::Invalid(ProtocolError::NegativeLength)
        } else {
            LengthStatus::Ready { prefix_len: n, length: v as usize }
        },
        Err(ProtocolError::UnexpectedEof) => LengthStatus::NeedMore,
        Err(e) => LengthStatus::Invalid(e),
    }
}

/// The bytes sent to the backend for a payload: its length re-encoded, then
/// the payload exactly as received.
pub open spec fn forwarded_frame(payload: Seq<u8>) -> Seq<u8> {
    varint_encoding(payload.len() as i32) + payload
}

/// Decides where a session goes from the payload of its first frame. Only a
/// well-formed handshake with packet id zero whose hostname has a route is
/// forwarded, and then byte for byte behind a fresh length prefix.
pub fn route_frame(payload: Vec<u8>, table: &RouteTable) -> (r: Routing)
    requires
        payload@.len() <= i32::MAX,
    ensures
        match r {
            Routing::Rejected(e) => handshake_spec(payload@) == Err::<
                (i32, i32, Seq<char>),
                ProtocolError,
            >(e),
            Routing::NotHandshake => handshake_spec(payload@) is Ok && handshake_spec(
                payload@,
            )->Ok_0.0 != 0,
            Routing::UnknownHost => handshake_spec(payload@) is Ok && handshake_spec(
                payload@,
            )->Ok_0.0 == 0 && route_of(table@, handshake_spec(payload@)->Ok_0.2) is None,
            Routing::Forward { backend, frame } => handshake_spec(payload@) is Ok
                && handshake_spec(payload@)->Ok_0.0 == 0 && route_of(
                table@,
                handshake_spec(payload@)->Ok_0.2,
            ) == Some(backend) && frame@ == forwarded_frame(payload@),
        },
{
    let h = match parse_handshake(payload) {
        Ok(h) => h,
        Err(e) => return Routing::Rejected(e),
    };
    if h.packet_id != 0 {
        return Routing::NotHandshake;
    }
    match table.lookup(h.hostname.as_str()) {
        None => Routing::UnknownHost,
        Some(backend) => {
            let mut frame: Vec<u8> = Vec::new();
            write_varint(&mut frame, h.payload.len() as i32);
            let mut rest = h.payload;
            frame.append(&mut rest);
            Routing::Forward { backend, frame }
        },
    }
}

/// The next step of one relay direction: forward what arrived, or finish on
/// end of stream or on any error.
pub fn pipe_step(event: PipeEvent) -> (r: PipeAction)
    ensures
        r == (match event {
            PipeEvent::Received(n) => if n > 0 {
                PipeAction::Forward(n)
            } else {
                PipeAction::Finish
            },
            _ => PipeAction::Finish,
        }),
{
    match event {
        PipeEvent::Received(n) => if n > 0 {
            PipeAction::Forward(n)
        } else {
            PipeAction::Finish
        },
        _ => PipeAction::Finish,
    }
}

/// Why a session ended in failure.
#[derive(Clone, Copy, Debug, PartialEq, Eq, Structural)]
pub enum SessionError {
    /// The client's first frame was malformed.
    Protocol(ProtocolError),
    /// Reading from the client failed or the client closed early.
    ClientIo,
    /// The backend could not be dialed.
    BackendUnreachable,
    /// Writing the first frame to the backend failed.
    BackendIo,
}

/// How a session ended.
#[derive(Clone, Copy, Debug, PartialEq, Eq, Structural)]
pub enum SessionOutcome {
    /// The relay ran and one of its directions ended.
    Finished,
    /// The first frame was not a handshake; closed silently.
    NotHandshake,
    /// No route exists for the hostname; closed silently.
    UnknownHost,
    /// A step failed.
    Failed(SessionError),
}

/// The result of the I/O that the previous action asked for.
pub enum SessionEvent {
    /// One byte of the length prefix arrived.
    Byte(u8),
    /// The whole payload arrived.
    Payload(Vec<u8>),
    /// Reading from the client failed or hit end of stream.
    ReadFailed,
    /// The backend connection is open.
    Dialed,
    /// The backend connection could not be opened.
    DialFailed,
    /// The first frame was written to the backend.
    Written,
    /// Writing the first frame to the backend failed.
    WriteFailed,
    /// One direction of the relay ended; the other is cancelled.
    RelayEnded,
}

/// The I/O to perform next.
pub enum SessionAction {
    /// Read one byte from the client.
    ReadByte,
    /// Read exactly this many bytes from the client.
    ReadPayload(usize),
    /// Open a connection to this backend.
    Dial(SocketAddress),
    /// Write these bytes to the backend.
    Write(Vec<u8>),
    /// Relay both directions until one ends (no-delay on both sockets).
    Relay,
    /// Close every connection the session holds; the session is over.
    Close,
}

/// One proxy session, from the accepted connection to its close.
pub enum Session {
    /// Reading the frame's length prefix; `prefix` holds its bytes so far.
    ReadingLength { prefix: Vec<u8> },
    /// Reading the frame's payload of `length` bytes.
    ReadingPayload { length: usize },
    /// Dialing the backend, holding the frame to forward.
    Dialing { frame: Vec<u8> },
    /// Writing the frame to the backend.
    Forwarding,
    /// Relaying in both directions.
    Relaying,
    /// Over; no more I/O.
    Closed(SessionOutcome),
}

impl Session {
    /// Payload lengths come from a non-negative 32-bit length prefix.
    pub open spec fn wf(&self) -> bool {
        self matches Session::ReadingPayload { length } ==> length <= i32::MAX
    }

    /// The events that answer the action this state asked for.
    pub open spec fn accepts(&self, event: SessionEvent) -> bool {
        match *self {
            Session::ReadingLength { .. } => event is Byte || event is ReadFailed,
            Session::ReadingPayload { length } => (event matches SessionEvent::Payload(p)
                && p@.len() == length) || event is ReadFailed,
            Session::Dialing { .. } => event is Dialed || event is DialFailed,
            Session::Forwarding => event is Written || event is WriteFailed,
            Session::Relaying => event is RelayEnded,
            Session::Closed(_) => false,
        }
    }

    /// Whether the session is over.
    pub open spec fn is_closed(&self) -> bool {
        self is Closed
    }

    /// A new session for an accepted connection, and its first action.
    pub fn start() -> (r: (Session, SessionAction))
        ensures
            r.0 matches Session::ReadingLength { prefix } && prefix@.len() == 0,
            r.1 is ReadByte,
    {
        (Session::ReadingLength { prefix: Vec::new() }, SessionAction::ReadByte)
    }

    /// Whether the session is over.
    pub fn closed(&self) -> (r: bool)
        ensures
            r == self.is_closed(),
    {
        match self {
            Session::Closed(_) => true,
            _ => false,
        }
    }
}

/// The step from state `s` on event `event`, with routes `routes`, to state
/// `t` and action `a`.
pub open spec fn transition(
    s: Session,
    event: SessionEvent,
    routes: Map<Seq<char>, SocketAddress>,
    t: Session,
    a: SessionAction,
) -> bool {
    let fail = |e: SessionError| t == Session::Closed(SessionOutcome::Failed(e)) && a is Close;
    match s {
        Session::ReadingLength { prefix } => match event {
            SessionEvent::Byte(b) => match length_status_spec(prefix@.push(b)) {
                LengthStatus::NeedMore => t matches Session::ReadingLength { prefix: q } && q@
                    == prefix@.push(b) && a is ReadByte,
                LengthStatus::Ready { length, .. } => t == Session::ReadingPayload { length }
                    && a == SessionAction::ReadPayload(length),
                LengthStatus::Invalid(e) => fail(SessionError::Protocol(e)),
            },
            _ => fail(SessionError::ClientIo),
        },
        Session::ReadingPayload { .. } => match event {
            SessionEvent::Payload(p) => match handshake_spec(p@) {
                Err(e) => fail(SessionError::Protocol(e)),
                Ok((id, _, host)) => if id != 0 {
                    t == Session::Closed(SessionOutcome::NotHandshake) && a is Close
                } else {
                    match route_of(routes, host) {
                        None => t == Session::Closed(SessionOutcome::UnknownHost) && a is Close,
                        Some(backend) => t matches Session::Dialing { frame } && frame@
                            == forwarded_frame(p@) && a == SessionAction::Dial(backend),
                    }
                },
            },
            _ => fail(SessionError::ClientIo),
        },
        Session::Dialing { frame } => match event {
            SessionEvent::Dialed => a matches SessionAction::Write(f) && f@ == frame@ && t
                == Session::Forwarding,
            _ => fail(SessionError::BackendUnreachable),
        },
        Session::Forwarding => match event {
            SessionEvent::Written => t == Session::Relaying && a is Relay,
            _ => fail(SessionError::BackendIo),
        },
        Session::Relaying => t == Session::Closed(SessionOutcome::Finished) && a is Close,
        Session::Closed(_) => false,
    }
}

impl Session {
    /// Takes the result of the last action and returns the next one.
    pub fn step(&mut self, event: SessionEvent, table: &RouteTable) -> (r: SessionAction)
        requires
            old(self).wf(),
            old(self).accepts(event),
        ensures
            final(self).wf(),
            transition(*old(self), event, table@, *final(self), r),
    {
        let mut state = Session::Closed(SessionOutcome::Finished);
        std::mem::swap(self, &mut state);
        let (next, action) = match state {
            Session::ReadingLength { prefix } => match event {
                SessionEvent::Byte(b) => {
                    let mut prefix = prefix;
                    prefix.push(b);
                    match frame_length(prefix.as_slice()) {
                        LengthStatus::NeedMore => (
                            Session::ReadingLength { prefix },
                            SessionAction::ReadByte,
                        ),
                        LengthStatus::Ready { length, .. } => (
                            Session::ReadingPayload { length },
                            SessionAction::ReadPayload(length),
                        ),
                        LengthStatus::Invalid(e) => (
                            Session::Closed(SessionOutcome::Failed(SessionError::Protocol(e))),
                            SessionAction::Close,
                        ),
                    }
                },
                _ => (
                    Session::Closed(SessionOutcome::Failed(SessionError::ClientIo)),
                    SessionAction::Close,
                ),
            },
            Session::ReadingPayload { .. } => match event {
                SessionEvent::Payload(p) => match route_frame(p, table) {
                    Routing::Forward { backend, frame } => (
                        Session::Dialing { frame },
                        SessionAction::Dial(backend),
                    ),
                    Routing::NotHandshake => (
                        Session::Closed(SessionOutcome::NotHandshake),
                        SessionAction::Close,
                    ),
                    Routing::UnknownHost => (
                        Session::Closed(SessionOutcome::UnknownHost),
                        SessionAction::Close,
                    ),
                    Routing::Rejected(e) => (
                        Session::Closed(SessionOutcome::Failed(SessionError::Protocol(e))),
                        SessionAction::Close,
                    ),
                },
                _ => (
                    Session::Closed(SessionOutcome::Failed(SessionError::ClientIo)),
                    SessionAction::Close,
                ),
            },
            Session::Dialing { frame } => match event {
                SessionEvent::Dialed => (Session::Forwarding, SessionAction::Write(frame)),
                _ => (
                    Session::Closed(SessionOutcome::Failed(SessionError::BackendUnreachable)),
                    SessionAction::Close,
                ),
            },
            Session::Forwarding => match event {
                SessionEvent::Written => (Session::Relaying, SessionAction::Relay),
                _ => (
                    Session::Closed(SessionOutcome::Failed(SessionError::BackendIo)),
                    SessionAction::Close,
                ),
            },
            Session::Relaying => (Session::Closed(SessionOutcome::Finished), SessionAction::Close),
            Session::Closed(o) => (Session::Closed(o), SessionAction::Close),
        };
        *self = next;
        action
    }
}

/// A session asks to open a backend connection only on the step that takes
/// its payload, only when that payload is a handshake with packet id zero,
/// and only to the backend routed for its hostname: a frame with another
/// packet id, or a hostname with no route, never leads to a dial.
pub proof fn lemma_dial_only_for_routed_handshake(
    s: Session,
    event: SessionEvent,
    routes: Map<Seq<char>, SocketAddress>,
    t: Session,
    a: SessionAction,
)
    requires
        transition(s, event, routes, t, a),
        a is Dial,
    ensures
        s is ReadingPayload,
        event is Payload,
        handshake_spec(event->Payload_0@) is Ok,
        handshake_spec(event->Payload_0@)->Ok_0.0 == 0,
        route_of(routes, handshake_spec(event->Payload_0@)->Ok_0.2) == Some(a->Dial_0),
{
}

/// What a session writes to the backend after dialing is the client's
/// payload byte for byte, behind its length re-encoded as a VarInt.
pub proof fn lemma_forwarded_verbatim(
    s0: Session,
    payload: Vec<u8>,
    routes: Map<Seq<char>, SocketAddress>,
    s1: Session,
    a1: SessionAction,
    s2: Session,
    a2: SessionAction,
)
    requires
        transition(s0, SessionEvent::Payload(payload), routes, s1, a1),
        a1 is Dial,
        transition(s1, SessionEvent::Dialed, routes, s2, a2),
    ensures
        a2 matches SessionAction::Write(f) && f@ == varint_encoding(payload@.len() as i32)
            + payload@,
{
}

} // verus!
