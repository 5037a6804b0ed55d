//! What a protocol gives the engine: its phases, the key under which a packet
//! is found, and how its packets turn into payload bytes and back.

use crate::buffer::PacketBuf;
use vstd::prelude::*;

verus! {

/// Who a packet is meant for. An engine decodes what it receives with its own
/// side: a client with `Clientbound`, a server with `Serverbound`.
#[derive(Clone, Copy, Debug, PartialEq, Eq, Structural)]
pub enum PacketDirection {
    Clientbound,
    Serverbound,
}

/// What can go wrong between the bytes of a frame and a packet.
#[derive(Clone, Copy, Debug, PartialEq, Eq, Structural)]
pub enum ProtocolError {
    /// The protocol defines no packet for this direction, phase and id.
    UnknownPacket,
    /// A frame arrived before the session was given a phase.
    PhaseNotSet,
    /// The bytes end before the length and the id of the frame do.
    MalformedFrame,
}

/// The phases of a protocol: a finite set of states, each with a small id.
pub trait PacketState: Clone {
    /// The phase that `id` stands for.
    fn get_state_by_id(id: u8) -> Self;
}

/// The key under which a packet is decoded and described.
#[derive(Clone, Copy)]
pub struct PacketMetadata<S: PacketState> {
    pub id: u32,
    pub state: S,
    pub direction: PacketDirection,
}

/// The packets of a protocol. The engine frames what `encode` returns and
/// hands `decode` the payload of a frame with the key it arrived under.
///
/// An implementation maps every direction, phase and id either to one of its
/// packets or to `ProtocolError::UnknownPacket`: a key that it does not
/// define must fail, never fall back on some packet.
pub trait Protocol<S: PacketState>: Sized {
    /// The payload of this packet: no length, no id.
    fn encode(&self) -> PacketBuf;

    /// The packet that the payload in `buf` holds under the key `meta`.
    fn decode(buf: &mut PacketBuf, meta: &PacketMetadata<S>) -> Result<Self, ProtocolError>;

    /// The key of this packet.
    fn metadata(&self) -> PacketMetadata<S>;
}

} // verus!
