//! The first frame a client sends: packet id, protocol version and hostname,
//! read from the front of a payload that is kept whole for forwarding.
use vstd::prelude::*;

use crate::error::ProtocolError;
use crate::varint::{decode_spec, decode_varint, lemma_decode_within};

verus! {

/// What decoding the given bytes as UTF-8 yields: the text, or nothing when they are not valid.
pub uninterp spec fn utf8_text(b: Seq<u8>) -> Option<Seq<char>>;

/// Relies on `String::from_utf8`: it accepts exactly the valid UTF-8 byte
/// sequences and returns their text.
#[verifier::external_body]
fn string_from_utf8(b: Vec<u8>) -> (r: Option<String>)
    ensures
        match r {
            Some(s) => utf8_text(b@) == Some(s@),
            None => utf8_text(b@) is None,
        },
{
    String::from_utf8(b).ok()
}

/// The VarInt that starts at offset `at` of a frame, and the offset just after it.
/// Running out of frame bytes means the frame is truncated.
pub open spec fn field_at(p: Seq<u8>, at: nat) -> Result<(i32, nat), ProtocolError> {
    match decode_spec(p.subrange(at as int, p.len() as int)) {
        Ok((v, n)) => Ok((v, at + n)),
        Err(ProtocolError::UnexpectedEof) => Err(ProtocolError::Truncated),
        Err(e) => Err(e),
    }
}

/// The packet id, the protocol version and the hostname bytes at the front of a frame.
pub open spec fn handshake_fields(p: Seq<u8>) -> Result<(i32, i32, Seq<u8>), ProtocolError> {
    match field_at(p, 0) {
        Err(e) => Err(e),
        Ok((id, a)) => match field_at(p, a) {
            Err(e) => Err(e),
            Ok((version, b)) => match field_at(p, b) {
                Err(e) => Err(e),
                Ok((len, c)) => if len < 0 {
                    Err(ProtocolError::NegativeLength)
                } else if c + len > p.len() {
                    Err(ProtocolError::Truncated)
                } else {
                    Ok((id, version, p.subrange(c as int, c + len)))
                },
            },
        },
    }
}

/// The packet id, the protocol version and the hostname text of a frame.
pub open spec fn handshake_spec(p: Seq<u8>) -> Result<(i32, i32, Seq<char>), ProtocolError> {
    match handshake_fields(p) {
        Err(e) => Err(e),
        Ok((id, version, host)) => match utf8_text(host) {
            Some(t) => Ok((id, version, t)),
            None => Err(ProtocolError::InvalidEncoding),
        },
    }
}

/// A parsed handshake frame together with its complete, unmodified payload.
pub struct Handshake {
    pub packet_id: i32,
    pub protocol_version: i32,
    pub hostname: String,
    pub payload: Vec<u8>,
}

/// Reads the VarInt at offset `at` of `p`.
fn read_field(p: &Vec<u8>, at: usize) -> (r: Result<(i32, usize), ProtocolError>)
    requires
        at <= p@.len(),
    ensures
        match r {
            Ok((v, next)) => field_at(p@, at as nat) == Ok::<(i32, nat), ProtocolError>(
                (v, next as nat),
            ) && next <= p@.len(),
            Err(e) => field_at(p@, at as nat) == Err::<(i32, nat), ProtocolError>(e),
        },
{
    let rest = &p.as_slice()[at..p.len()];
    proof {
        lemma_decode_within(rest@);
    }
    match decode_varint(rest) {
        Ok((v, n)) => Ok((v, at + n)),
        Err(ProtocolError::UnexpectedEof) => Err(ProtocolError::Truncated),
        Err(e) => Err(e),
    }
}

/// Parses the packet id, protocol version and hostname from the front of a
/// frame payload. The payload itself is kept unchanged in the result.
pub fn parse_handshake(payload: Vec<u8>) -> (r: Result<Handshake, ProtocolError>)
    ensures
        match r {
            Ok(h) => handshake_spec(payload@) == Ok::<(i32, i32, Seq<char>), ProtocolError>(
                (h.packet_id, h.protocol_version, h.hostname@),
            ) && h.payload@ == payload@,
            Err(e) => handshake_spec(payload@) == Err::<(i32, i32, Seq<char>), ProtocolError>(e),
        },
{
    let (packet_id, a) = match read_field(&payload, 0) {
        Ok(f) => f,
        Err(e) => return Err(e),
    };
    let (protocol_version, b) = match read_field(&payload, a) {
        Ok(f) => f,
        Err(e) => return Err(e),
    };
    let (len, c) = match read_field(&payload, b) {
        Ok(f) => f,
        Err(e) => return Err(e),
    };
    if len < 0 {
        return Err(ProtocolError::NegativeLength);
    }
    if len as usize > payload.len() - c {
        return Err(ProtocolError::Truncated);
    }
    let end: usize = c + len as usize;
    let host_bytes = vstd::slice::slice_to_vec(&payload.as_slice()[c..end]);
    match string_from_utf8(host_bytes) {
        Some(hostname) => Ok(Handshake { packet_id, protocol_version, hostname, payload }),
        None => Err(ProtocolError::InvalidEncoding),
    }
}

} // verus!
