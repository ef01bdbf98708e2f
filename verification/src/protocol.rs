//! The binary wire protocol: 5-byte frames exchanged with clients and
//! relayed between server instances.
//!
//! Frame layout (byte 0 is the tag byte, bytes 1-4 a little-endian u32):
//! - tag bits 7:6 — category: `0` cell mutation, `1` presence update;
//! - tag bits 5:4 — operation (mutations only): `0` add, `1` sub, `2` set;
//! - tag bits 3:0 — the target value 0-15 (set only);
//! - bytes 1-4 — cell index (mutations) or presence count (updates).

use vstd::prelude::*;

use crate::store::CELL_COUNT;

verus! {

/// A mutation requested on one cell: increment (mod 16), decrement
/// (mod 16), or set to a given value.
#[derive(Clone, Copy, Debug, PartialEq, Eq, Structural)]
pub enum BitmapMessage {
    Add,
    Sub,
    SetTo(u8),
}

/// A presence update carried on the wire: the count of connected clients.
#[derive(Clone, Copy, Debug, PartialEq, Eq, Structural)]
pub struct OnlineUsersMessage(pub u32);

/// A decoded wire frame: either a cell mutation or a presence update.
#[derive(Clone, Copy, Debug, PartialEq, Eq, Structural)]
pub enum MessageType {
    Bitmap(u32, BitmapMessage),
    OnlineUsers(OnlineUsersMessage),
}

/// The 32-bit integer held little-endian in four bytes (`b0` least
/// significant).
pub open spec fn spec_le32(b0: u8, b1: u8, b2: u8, b3: u8) -> int {
    b0 + 256 * b1 + 65536 * b2 + 16777216 * b3
}

/// The four little-endian bytes of `v`, least significant first.
pub open spec fn spec_le_bytes(v: u32) -> Seq<u8> {
    seq![
        (v % 256) as u8,
        ((v / 256) % 256) as u8,
        ((v / 65536) % 256) as u8,
        ((v / 16777216) % 256) as u8,
    ]
}

/// What one frame decodes to; `None` is a rejected frame. A frame is
/// rejected when it is not exactly 5 bytes, its category or operation
/// code is unknown, or a mutation's cell index is out of range.
pub open spec fn spec_decode(s: Seq<u8>) -> Option<MessageType> {
    if s.len() != 5 {
        None
    } else {
        let tag = s[0];
        let num = spec_le32(s[1], s[2], s[3], s[4]);
        if tag >> 6u8 == 0 {
            if num >= CELL_COUNT {
                None
            } else if (tag >> 4u8) & 3u8 == 0 {
                Some(MessageType::Bitmap(num as u32, BitmapMessage::Add))
            } else if (tag >> 4u8) & 3u8 == 1 {
                Some(MessageType::Bitmap(num as u32, BitmapMessage::Sub))
            } else if (tag >> 4u8) & 3u8 == 2 {
                Some(MessageType::Bitmap(num as u32, BitmapMessage::SetTo(tag & 0x0fu8)))
            } else {
                None
            }
        } else if tag >> 6u8 == 1 {
            Some(MessageType::OnlineUsers(OnlineUsersMessage(num as u32)))
        } else {
            None
        }
    }
}

/// The frame announcing `count` connected clients: category `1`, count
/// little-endian.
pub open spec fn spec_presence_frame(count: u32) -> Seq<u8> {
    seq![0x40u8] + spec_le_bytes(count)
}

fn u32_from_le(b0: u8, b1: u8, b2: u8, b3: u8) -> (r: u32)
    ensures
        r == spec_le32(b0, b1, b2, b3),
{
    (b0 as u32) + 256 * (b1 as u32) + 65536 * (b2 as u32) + 16777216 * (b3 as u32)
}

fn push_le_bytes(out: &mut Vec<u8>, v: u32)
    ensures
        final(out)@ == old(out)@ + spec_le_bytes(v),
{
    out.push((v % 256) as u8);
    out.push(((v / 256) % 256) as u8);
    out.push(((v / 65536) % 256) as u8);
    out.push(((v / 16777216) % 256) as u8);
    proof {
        assert(out@ =~= old(out)@ + spec_le_bytes(v));
    }
}

impl MessageType {
    /// The single decode/validate boundary: turns raw bytes into a valid
    /// frame or rejects them. Rejection carries no detail on purpose —
    /// clients are never answered with errors.
    pub fn from_u8_array(msg: &Vec<u8>) -> (r: Option<Self>)
        ensures
            r == spec_decode(msg@),
    {
        if msg.len() != 5 {
            return None;
        }

        let byte1 = msg[0];
        let msg_type = (byte1 >> 6) & 0b11;
        let operation = (byte1 >> 4) & 0b11;
        let i = u32_from_le(msg[1], msg[2], msg[3], msg[4]);

        proof {
            assert((byte1 >> 6) & 0b11 == byte1 >> 6) by (bit_vector);
            assert(byte1 >> 6 <= 3) by (bit_vector);
            assert(byte1 & 0x0f <= 15) by (bit_vector);
        }

        match msg_type {
            0 => {
                if i >= CELL_COUNT as u32 {
                    return None;
                }
                let bitmap_msg = match operation {
                    0 => BitmapMessage::Add,
                    1 => BitmapMessage::Sub,
                    2 => {
                        let new_value = byte1 & 0b1111;
                        if new_value > 15 {
                            return None;
                        }
                        BitmapMessage::SetTo(new_value)
                    },
                    _ => {
                        return None;
                    },
                };
                Some(MessageType::Bitmap(i, bitmap_msg))
            },
            1 => Some(MessageType::OnlineUsers(OnlineUsersMessage(i))),
            _ => None,
        }
    }
}

impl OnlineUsersMessage {
    /// Encode this presence update as its 5-byte wire frame.
    pub fn ws_msg(&self) -> (r: Vec<u8>)
        ensures
            r@ == spec_presence_frame(self.0),
    {
        let mut out: Vec<u8> = Vec::new();
        out.push(0b0100_0000u8);
        push_le_bytes(&mut out, self.0);
        proof {
            assert(out@ =~= spec_presence_frame(self.0));
        }
        out
    }
}

/// An event fanned out to every connection and relayed between server
/// instances: one cell changed, or the presence count changed.
#[derive(Clone, Copy, Debug, PartialEq, Eq, Structural)]
pub enum BroadcastEvent {
    CellMutated { index: u32, value: u8 },
    PresenceChanged { count: u32 },
}

/// A well-formed event: the cell index is on the board and the resulting
/// value fits in a nibble.
pub open spec fn event_wf(e: BroadcastEvent) -> bool {
    match e {
        BroadcastEvent::CellMutated { index, value } => index < CELL_COUNT && value <= 15,
        BroadcastEvent::PresenceChanged { .. } => true,
    }
}

/// The 5-byte frame for an event. A cell mutation is announced as the
/// set of its resulting value, so a receiver need not replay operations.
pub open spec fn spec_encode_event(e: BroadcastEvent) -> Seq<u8> {
    match e {
        BroadcastEvent::CellMutated { index, value } => seq![0x20u8 | value] + spec_le_bytes(
            index,
        ),
        BroadcastEvent::PresenceChanged { count } => spec_presence_frame(count),
    }
}

impl BroadcastEvent {
    /// Encode this event as its 5-byte wire frame.
    pub fn encode(&self) -> (r: Vec<u8>)
        requires
            event_wf(*self),
        ensures
            r@ == spec_encode_event(*self),
    {
        let mut out: Vec<u8> = Vec::new();
        match *self {
            BroadcastEvent::CellMutated { index, value } => {
                out.push(0x20u8 | value);
                push_le_bytes(&mut out, index);
            },
            BroadcastEvent::PresenceChanged { count } => {
                out.push(0b0100_0000u8);
                push_le_bytes(&mut out, count);
            },
        }
        proof {
            assert(out@ =~= spec_encode_event(*self));
        }
        out
    }
}

proof fn lemma_le_round_trip(v: u32)
    ensures
        spec_le32(
            (v % 256) as u8,
            ((v / 256) % 256) as u8,
            ((v / 65536) % 256) as u8,
            ((v / 16777216) % 256) as u8,
        ) == v,
{
    assert(v % 256 + 256 * ((v / 256) % 256) + 65536 * ((v / 65536) % 256) + 16777216 * ((v
        / 16777216) % 256) == v) by (bit_vector);
}

/// Law: an encoded event decodes back to the matching wire message — a
/// cell mutation to the set of its resulting value on the same cell, a
/// presence change to the presence update with the same count. So a
/// frame built for the relay channel is never rejected by a peer.
pub proof fn lemma_event_round_trip(e: BroadcastEvent)
    requires
        event_wf(e),
    ensures
        match e {
            BroadcastEvent::CellMutated { index, value } => spec_decode(spec_encode_event(e))
                == Some(MessageType::Bitmap(index, BitmapMessage::SetTo(value))),
            BroadcastEvent::PresenceChanged { count } => spec_decode(spec_encode_event(e)) == Some(
                MessageType::OnlineUsers(OnlineUsersMessage(count)),
            ),
        },
{
    let s = spec_encode_event(e);
    assert(s.len() == 5);
    match e {
        BroadcastEvent::CellMutated { index, value } => {
            let tag = 0x20u8 | value;
            assert(s[0] == tag);
            assert(s[1] == (index % 256) as u8 && s[2] == ((index / 256) % 256) as u8 && s[3] == ((
            index / 65536) % 256) as u8 && s[4] == ((index / 16777216) % 256) as u8);
            lemma_le_round_trip(index);
            assert(tag >> 6u8 == 0 && (tag >> 4u8) & 3u8 == 2 && tag & 0x0fu8 == value)
                by (bit_vector)
                requires
                    tag == 0x20u8 | value,
                    value <= 15,
            ;
        },
        BroadcastEvent::PresenceChanged { count } => {
            assert(s[0] == 0x40u8);
            assert(s[1] == (count % 256) as u8 && s[2] == ((count / 256) % 256) as u8 && s[3] == ((
            count / 65536) % 256) as u8 && s[4] == ((count / 16777216) % 256) as u8);
            lemma_le_round_trip(count);
            assert(0x40u8 >> 6u8 == 1) by (bit_vector);
        },
    }
}

} // verus!
