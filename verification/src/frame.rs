//! The frame: the wire unit of one packet. A frame is the payload length and
//! the packet id, each a variable-length integer, and then the payload.
//!
//! A receiver takes everything behind the header for the payload: the
//! announced length is read and reported, and it bounds nothing. One frame is
//! one delivery of bytes.

use crate::buffer::{PacketBuf, PacketBufView};
use crate::endian::{signed_value, unsigned_pattern};
use crate::protocol::{PacketDirection, PacketMetadata, PacketState, Protocol, ProtocolError};
use crate::varint::{encode, lemma_read_back, lemma_round_trip, pattern_count};
use vstd::prelude::*;

verus! {

/// The bytes of the frame of a packet with this id and payload.
pub open spec fn frame_bytes(id: u32, payload: Seq<u8>) -> Seq<u8> {
    encode(payload.len()) + encode(id as nat) + payload
}

/// The two numbers in front of a payload.
#[derive(Clone, Copy, Debug, PartialEq, Eq, Structural)]
pub struct FrameHeader {
    /// The payload length that the sender announced.
    pub length: i64,
    /// The packet id as it was read.
    pub id: i64,
}

/// A header can be read at the cursor: two variable-length integers.
pub open spec fn header_readable(view: PacketBufView) -> bool {
    view.var_int_readable() && view.after_var_int().var_int_readable()
}

/// The header at the cursor.
pub open spec fn header_of(view: PacketBufView) -> FrameHeader {
    FrameHeader {
        length: signed_value(view.var_int(), pattern_count()) as i64,
        id: signed_value(view.after_var_int().var_int(), pattern_count()) as i64,
    }
}

/// The same bytes with the cursor behind the header.
pub open spec fn after_header(view: PacketBufView) -> PacketBufView {
    view.after_var_int().after_var_int()
}

/// The packet id that a header's id stands for: its low 32 bits.
pub open spec fn packet_id(id: i64) -> u32 {
    (unsigned_pattern(id as int, pattern_count()) % 0x1_0000_0000) as u32
}

/// `packet` is what the protocol makes of `payload` under the key of this id,
/// phase and direction: a result that its `decode` gives for them.
pub open spec fn is_decoding_of<S: PacketState, T: Protocol<S>>(
    packet: Result<T, ProtocolError>,
    payload: PacketBufView,
    id: u32,
    phase: S,
    direction: PacketDirection,
) -> bool {
    exists|buf: &mut PacketBuf, meta: PacketMetadata<S>|
        buf@ == payload && meta.id == id && meta.direction == direction && cloned(
            phase,
            meta.state,
        ) && call_ensures(T::decode, (buf, &meta), packet)
}

/// `packet` is what a session in `phase` makes of the received bytes: a
/// frame whose header is cut short is malformed, a session without a phase
/// decodes nothing, and every other frame is what the protocol makes of the
/// bytes behind its header under its key.
pub open spec fn is_receipt_of<S: PacketState, T: Protocol<S>>(
    packet: Result<T, ProtocolError>,
    received: PacketBufView,
    phase: Option<S>,
    direction: PacketDirection,
) -> bool {
    if !header_readable(received) {
        packet == Err::<T, ProtocolError>(ProtocolError::MalformedFrame)
    } else if phase is None {
        packet == Err::<T, ProtocolError>(ProtocolError::PhaseNotSet)
    } else {
        is_decoding_of(
            packet,
            after_header(received).rest(),
            packet_id(header_of(received).id),
            phase->0,
            direction,
        )
    }
}

/// `frame` is a frame of `packet`: its id and payload are some that the
/// packet gives.
pub open spec fn is_frame_of<S: PacketState, T: Protocol<S>>(
    frame: PacketBufView,
    packet: T,
) -> bool {
    exists|payload: PacketBuf, meta: PacketMetadata<S>|
        call_ensures(T::encode, (&packet,), payload) && call_ensures(
            T::metadata,
            (&packet,),
            meta,
        ) && frame == (PacketBufView { bytes: frame_bytes(meta.id, payload@.bytes), cursor: 0 })
}

/// Builds the frame of a packet with this id and payload.
pub fn frame(id: u32, payload: &PacketBuf) -> (frame: PacketBuf)
    ensures
        frame@ == (PacketBufView { bytes: frame_bytes(id, payload@.bytes), cursor: 0 }),
{
    let mut frame = PacketBuf::new();
    frame.push_var_uint(payload.length() as u64);
    frame.write_var_int(id as i64);
    frame.write_all(payload);
    assert(frame@.bytes =~= frame_bytes(id, payload@.bytes));
    frame
}

/// Reads the header of a frame. Where the bytes end before the header does,
/// the cursor stops behind what could be read of it.
pub fn read_header(buf: &mut PacketBuf) -> (header: Option<FrameHeader>)
    ensures
        header_readable(old(buf)@) ==> header == Some(header_of(old(buf)@)) && final(buf)@
            == after_header(old(buf)@),
        !header_readable(old(buf)@) ==> header is None,
        !old(buf)@.var_int_readable() ==> final(buf)@ == old(buf)@,
        old(buf)@.var_int_readable() && !header_readable(old(buf)@) ==> final(buf)@ == old(
            buf,
        )@.after_var_int(),
{
    if !buf.can_read_var_int() {
        return None;
    }
    let length = buf.read_var_int();
    if !buf.can_read_var_int() {
        return None;
    }
    let id = buf.read_var_int();
    Some(FrameHeader { length, id })
}

/// The packet id of a header: the low 32 bits of the id it carries.
pub fn id_of(header: &FrameHeader) -> (id: u32)
    ensures
        id == packet_id(header.id),
{
    let pattern: u64 = if header.id >= 0 {
        header.id as u64
    } else {
        (header.id - i64::MIN) as u64 + 0x8000_0000_0000_0000
    };
    (pattern % 0x1_0000_0000) as u32
}

/// The key under which a received packet is decoded. A session without a
/// phase has none: no phase is assumed in its place.
pub fn metadata_for<S: PacketState>(
    header: &FrameHeader,
    phase: &Option<S>,
    direction: PacketDirection,
) -> (meta: Result<PacketMetadata<S>, ProtocolError>)
    ensures
        phase is None ==> meta == Err::<PacketMetadata<S>, ProtocolError>(
            ProtocolError::PhaseNotSet,
        ),
        phase is Some ==> meta is Ok && ({
            let key = meta->Ok_0;
            &&& key.id == packet_id(header.id)
            &&& key.direction == direction
            &&& cloned(phase->0, key.state)
        }),
{
    match phase {
        Some(state) => Ok(PacketMetadata { id: id_of(header), state: state.clone(), direction }),
        None => Err(ProtocolError::PhaseNotSet),
    }
}

/// A frame that was opened: the key to decode under, and the payload with
/// the cursor at its start.
pub struct OpenedFrame<S: PacketState> {
    pub header: FrameHeader,
    pub meta: PacketMetadata<S>,
    pub payload: PacketBuf,
}

/// Opens a received frame for a session in `phase`: reads the header, builds
/// the key, and takes the bytes behind the header for the payload.
pub fn open_frame<S: PacketState>(
    received: &mut PacketBuf,
    phase: &Option<S>,
    direction: PacketDirection,
) -> (opened: Result<OpenedFrame<S>, ProtocolError>)
    ensures
        final(received)@.bytes == old(received)@.bytes,
        !header_readable(old(received)@) ==> opened == Err::<OpenedFrame<S>, ProtocolError>(
            ProtocolError::MalformedFrame,
        ),
        header_readable(old(received)@) && phase is None ==> opened == Err::<
            OpenedFrame<S>,
            ProtocolError,
        >(ProtocolError::PhaseNotSet),
        header_readable(old(received)@) && phase is Some ==> opened is Ok && ({
            let frame = opened->Ok_0;
            &&& frame.header == header_of(old(received)@)
            &&& frame.meta.id == packet_id(frame.header.id)
            &&& frame.meta.direction == direction
            &&& cloned(phase->0, frame.meta.state)
            &&& frame.payload@ == after_header(old(received)@).rest()
        }),
{
    match read_header(received) {
        None => Err(ProtocolError::MalformedFrame),
        Some(header) => match metadata_for(&header, phase, direction) {
            Err(e) => Err(e),
            Ok(meta) => Ok(OpenedFrame { header, meta, payload: received.rest() }),
        },
    }
}

/// Frames a packet: the length of its payload, its id, its payload.
pub fn encode_frame<S: PacketState, T: Protocol<S>>(packet: &T) -> (frame: PacketBuf)
    ensures
        is_frame_of(frame@, *packet),
{
    let payload = packet.encode();
    let meta = packet.metadata();
    frame(meta.id, &payload)
}

/// Decodes a received frame for a session in `phase`. A frame whose header
/// is cut short and a session without a phase fail here; every other frame
/// is what the protocol makes of its payload under its key.
pub fn decode_frame<S: PacketState, T: Protocol<S>>(
    received: &mut PacketBuf,
    phase: &Option<S>,
    direction: PacketDirection,
) -> (packet: Result<T, ProtocolError>)
    ensures
        final(received)@.bytes == old(received)@.bytes,
        is_receipt_of(packet, old(received)@, *phase, direction),
{
    match open_frame(received, phase, direction) {
        Err(e) => Err(e),
        Ok(opened) => {
            let mut payload = opened.payload;
            T::decode(&mut payload, &opened.meta)
        },
    }
}

/// Without a phase nothing is decoded: whatever bytes arrive, a session that
/// was never given a phase receives an error, and no phase is assumed.
pub proof fn lemma_no_phase_no_packet<S: PacketState, T: Protocol<S>>(
    packet: Result<T, ProtocolError>,
    received: PacketBufView,
    direction: PacketDirection,
)
    requires
        is_receipt_of(packet, received, None::<S>, direction),
    ensures
        packet is Err,
        header_readable(received) ==> packet->Err_0 == ProtocolError::PhaseNotSet,
        !header_readable(received) ==> packet->Err_0 == ProtocolError::MalformedFrame,
{
}

/// A failure of the protocol stays a failure: where the protocol defines no
/// packet under a key, so that its `decode` gives nothing but
/// `UnknownPacket` there, a session receives `UnknownPacket` for every frame
/// with that key. No packet is made up in its place.
pub proof fn lemma_unknown_packet_is_received_as_unknown<S: PacketState, T: Protocol<S>>(
    packet: Result<T, ProtocolError>,
    received: PacketBufView,
    phase: S,
    direction: PacketDirection,
)
    requires
        header_readable(received),
        is_receipt_of(packet, received, Some(phase), direction),
        forall|buf: &mut PacketBuf, meta: PacketMetadata<S>, decoded: Result<T, ProtocolError>|
            meta.id == packet_id(header_of(received).id) && meta.direction == direction && cloned(
                phase,
                meta.state,
            ) && #[trigger] call_ensures(T::decode, (buf, &meta), decoded) ==> decoded == Err::<
                T,
                ProtocolError,
            >(ProtocolError::UnknownPacket),
    ensures
        packet == Err::<T, ProtocolError>(ProtocolError::UnknownPacket),
{
}

/// Framing adds nothing and loses nothing: what a session makes of the frame
/// of a packet is what the protocol makes of a payload and an id that the
/// packet gives.
pub proof fn lemma_frame_receipt<S: PacketState, T: Protocol<S>>(
    sent: T,
    frame: PacketBufView,
    phase: S,
    direction: PacketDirection,
    packet: Result<T, ProtocolError>,
)
    requires
        is_frame_of(frame, sent),
        is_receipt_of(packet, frame, Some(phase), direction),
    ensures
        exists|payload: PacketBuf, meta: PacketMetadata<S>|
            call_ensures(T::encode, (&sent,), payload) && call_ensures(
                T::metadata,
                (&sent,),
                meta,
            ) && is_decoding_of(
                packet,
                PacketBufView { bytes: payload@.bytes, cursor: 0 },
                meta.id,
                phase,
                direction,
            ),
{
    let (payload, meta) = choose|payload: PacketBuf, meta: PacketMetadata<S>|
        call_ensures(T::encode, (&sent,), payload) && call_ensures(T::metadata, (&sent,), meta)
            && frame == (PacketBufView {
            bytes: frame_bytes(meta.id, payload@.bytes),
            cursor: 0,
        });
    payload.lemma_len_bound();
    lemma_frame_round_trip(meta.id, payload@.bytes);
    assert(after_header(frame).rest() == (PacketBufView { bytes: payload@.bytes, cursor: 0 }));
}

/// A frame gives back what it was built from: its header can be read, the
/// header carries the length and the id, and the bytes behind the header are
/// the payload.
pub proof fn lemma_frame_round_trip(id: u32, payload: Seq<u8>)
    requires
        payload.len() < pattern_count(),
    ensures
        ({
            let view = PacketBufView { bytes: frame_bytes(id, payload), cursor: 0 };
            &&& header_readable(view)
            &&& unsigned_pattern(header_of(view).length as int, pattern_count()) == payload.len()
            &&& header_of(view).id == id
            &&& packet_id(header_of(view).id) == id
            &&& after_header(view).rest().bytes == payload
        }),
{
    let size = encode(payload.len());
    let key = encode(id as nat);
    let view = PacketBufView { bytes: frame_bytes(id, payload), cursor: 0 };
    lemma_round_trip(payload.len());
    lemma_round_trip(id as nat);
    lemma_read_back(Seq::<u8>::empty(), payload.len(), key + payload);
    assert(Seq::<u8>::empty() + size + (key + payload) =~= view.bytes);
    lemma_read_back(size, id as nat, payload);
    assert(size + key + payload =~= view.bytes);
    assert(after_header(view).cursor == size.len() + key.len());
    assert(view.bytes.skip((size.len() + key.len()) as int) =~= payload);
}

} // verus!
