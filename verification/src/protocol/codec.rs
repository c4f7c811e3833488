//! Framing of the player-to-server byte stream:
//! `[4-byte opcode][4-byte big-endian length][payload]`.
use vstd::prelude::*;
use crate::protocol::bytes::{be32, copy_range, read_be32};
use crate::protocol::messages::{
    disconnect_reason_of, helo_fields, helo_parse_defined, opcode_of_bytes, stat_fields,
    ButtonMessage, DisconnectReason, HeloMessage, IrMessage, Opcode, SlimprotoMessage, StatMessage,
};

verus! {

/// Decoder for frames sent by players.
pub struct SlimprotoCodec;

/// The buffer starts with a whole frame.
pub open spec fn frame_complete(buf: Seq<u8>) -> bool {
    buf.len() >= 8 && buf.len() - 8 >= be32(buf, 4)
}

/// Length of the frame at the start of the buffer, header included.
pub open spec fn frame_len(buf: Seq<u8>) -> int {
    8 + be32(buf, 4) as int
}

pub open spec fn frame_opcode(buf: Seq<u8>) -> Seq<u8> {
    buf.subrange(0, 4)
}

pub open spec fn frame_payload(buf: Seq<u8>) -> Seq<u8> {
    buf.subrange(8, frame_len(buf))
}

/// The buffers the decoder handles: a complete HELO frame whose payload is 18
/// or 19 bytes long is outside them.
pub open spec fn decode_defined(buf: Seq<u8>) -> bool {
    frame_complete(buf) && opcode_of_bytes(frame_opcode(buf)) == Some(Opcode::Helo)
        ==> helo_parse_defined(frame_payload(buf))
}

/// `m` keeps an unrecognised or malformed frame as raw bytes.
pub open spec fn is_raw(m: SlimprotoMessage, op: Seq<u8>, payload: Seq<u8>) -> bool {
    m matches SlimprotoMessage::Unknown { opcode, data } && opcode@ == op && data@ == payload
}

/// `m` is the message a frame with opcode bytes `op` and payload `payload` decodes to.
pub open spec fn message_of(m: SlimprotoMessage, op: Seq<u8>, payload: Seq<u8>) -> bool {
    match opcode_of_bytes(op) {
        Some(Opcode::Helo) => if payload.len() >= 18 {
            m matches SlimprotoMessage::Helo(h) && helo_fields(h, payload)
        } else {
            is_raw(m, op, payload)
        },
        Some(Opcode::Stat) => if payload.len() >= 52 {
            m matches SlimprotoMessage::Stat(s) && stat_fields(s, payload)
        } else {
            is_raw(m, op, payload)
        },
        Some(Opcode::Ir) => if payload.len() >= 16 {
            m matches SlimprotoMessage::Ir(ir) && ir.time as nat == be32(payload, 0)
                && ir.format as nat == be32(payload, 4) && ir.bits as nat == be32(payload, 8)
                && ir.code as nat == be32(payload, 12)
        } else {
            is_raw(m, op, payload)
        },
        Some(Opcode::Butn) => if payload.len() >= 8 {
            m matches SlimprotoMessage::Butn(b) && b.time as nat == be32(payload, 0) && b.code as nat
                == be32(payload, 4)
        } else {
            is_raw(m, op, payload)
        },
        Some(Opcode::Bye) => m is Bye,
        Some(Opcode::Dsco) => m == SlimprotoMessage::Dsco(
            if payload.len() > 0 {
                disconnect_reason_of(payload[0])
            } else {
                DisconnectReason::ConnectionClosed
            },
        ),
        _ => is_raw(m, op, payload),
    }
}

impl SlimprotoCodec {
    /// Takes the first whole frame off `src` and decodes it; leaves `src`
    /// untouched and returns `None` while the frame is incomplete.
    pub fn decode(&mut self, src: &mut Vec<u8>) -> (r: Option<SlimprotoMessage>)
        requires
            decode_defined(old(src)@),
        ensures
            !frame_complete(old(src)@) ==> r is None && final(src)@ == old(src)@,
            frame_complete(old(src)@) ==> (r matches Some(m) && message_of(
                m,
                frame_opcode(old(src)@),
                frame_payload(old(src)@),
            ) && final(src)@ == old(src)@.skip(frame_len(old(src)@))),
    {
        if src.len() < 8 {
            return None;
        }
        let opcode_bytes: [u8; 4] = [src[0], src[1], src[2], src[3]];
        assert(opcode_bytes@ =~= frame_opcode(src@));
        let length = read_be32(src.as_slice(), 4) as usize;
        if length > src.len() - 8 {
            return None;
        }
        let total = 8 + length;
        let payload = copy_range(src.as_slice(), 8, total);
        let rest = copy_range(src.as_slice(), total, src.len());
        assert(rest@ =~= old(src)@.skip(frame_len(old(src)@)));
        *src = rest;
        let message = match Opcode::from_bytes(&opcode_bytes) {
            Some(Opcode::Helo) => {
                match HeloMessage::parse(payload.as_slice()) {
                    Ok(helo) => SlimprotoMessage::Helo(helo),
                    Err(_) => SlimprotoMessage::Unknown { opcode: opcode_bytes, data: payload },
                }
            },
            Some(Opcode::Stat) => {
                match StatMessage::parse(payload.as_slice()) {
                    Ok(stat) => SlimprotoMessage::Stat(stat),
                    Err(_) => SlimprotoMessage::Unknown { opcode: opcode_bytes, data: payload },
                }
            },
            Some(Opcode::Ir) => {
                match IrMessage::parse(payload.as_slice()) {
                    Ok(ir) => SlimprotoMessage::Ir(ir),
                    Err(_) => SlimprotoMessage::Unknown { opcode: opcode_bytes, data: payload },
                }
            },
            Some(Opcode::Butn) => {
                match ButtonMessage::parse(payload.as_slice()) {
                    Ok(butn) => SlimprotoMessage::Butn(butn),
                    Err(_) => SlimprotoMessage::Unknown { opcode: opcode_bytes, data: payload },
                }
            },
            Some(Opcode::Bye) => SlimprotoMessage::Bye,
            Some(Opcode::Dsco) => {
                let reason = if payload.len() > 0 {
                    DisconnectReason::from_u8(payload[0])
                } else {
                    DisconnectReason::ConnectionClosed
                };
                SlimprotoMessage::Dsco(reason)
            },
            _ => SlimprotoMessage::Unknown { opcode: opcode_bytes, data: payload },
        };
        Some(message)
    }
}

/// Whether the decoder handles the buffer: anything but a complete HELO
/// frame with an 18- or 19-byte payload.
pub fn decode_is_defined(buf: &[u8]) -> (r: bool)
    ensures
        r == decode_defined(buf@),
{
    assert(buf@.len() == buf.len());
    if buf.len() < 8 {
        return true;
    }
    let len = read_be32(buf, 4) as usize;
    if buf.len() - 8 < len {
        return true;
    }
    let op = [buf[0], buf[1], buf[2], buf[3]];
    assert(op@ =~= frame_opcode(buf@));
    match Opcode::from_bytes(&op) {
        Some(Opcode::Helo) => len < 18 || len >= 20,
        _ => true,
    }
}

} // verus!
