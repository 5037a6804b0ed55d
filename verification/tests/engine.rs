use dragonet::buffer::PacketBuf;
use dragonet::client::{Client, ClientLifecycle};
use dragonet::frame::{
    decode_frame, encode_frame, frame, id_of, metadata_for, open_frame, read_header, FrameHeader,
};
use dragonet::protocol::{PacketDirection, PacketMetadata, PacketState, Protocol, ProtocolError};
use dragonet::reader::{ReadOutcome, ReadStep, Receiver};
use dragonet::server::{ConfigError, EventTarget, Lifecycle, Server};
use dragonet::session::Session;

#[derive(Clone, Copy, Debug, PartialEq, Eq)]
enum Phase {
    Handshake,
    Main,
}

impl PacketState for Phase {
    fn get_state_by_id(id: u8) -> Self {
        match id {
            0 => Phase::Handshake,
            _ => Phase::Main,
        }
    }
}

#[derive(Clone, Debug, PartialEq, Eq)]
enum Packet {
    Ping { nonce: u32 },
    Hello { name: String },
}

impl Protocol<Phase> for Packet {
    fn encode(&self) -> PacketBuf {
        let mut buf = PacketBuf::new();
        match self {
            Packet::Ping { nonce } => buf.write_u32(*nonce),
            Packet::Hello { name } => buf.write_string(name),
        }
        buf
    }

    fn decode(buf: &mut PacketBuf, meta: &PacketMetadata<Phase>) -> Result<Self, ProtocolError> {
        match (meta.state, meta.id) {
            (Phase::Main, 0) if buf.can_read(4) => Ok(Packet::Ping { nonce: buf.read_u32() }),
            (Phase::Handshake, 1) if buf.can_read_string() => {
                Ok(Packet::Hello { name: buf.read_string() })
            }
            _ => Err(ProtocolError::UnknownPacket),
        }
    }

    fn metadata(&self) -> PacketMetadata<Phase> {
        match self {
            Packet::Ping { .. } => PacketMetadata {
                id: 0,
                state: Phase::Main,
                direction: PacketDirection::Clientbound,
            },
            Packet::Hello { .. } => PacketMetadata {
                id: 1,
                state: Phase::Handshake,
                direction: PacketDirection::Serverbound,
            },
        }
    }
}

fn buffer_of(bytes: &[u8]) -> PacketBuf {
    let mut buf = PacketBuf::new();
    buf.write_slice(bytes);
    buf
}

#[test]
fn state_by_id_maps_small_ids_to_phases() {
    assert_eq!(Phase::get_state_by_id(0), Phase::Handshake);
    assert_eq!(Phase::get_state_by_id(1), Phase::Main);
}

#[test]
fn ping_frame_has_the_expected_wire_bytes() {
    let packet = Packet::Ping { nonce: 7 };
    assert_eq!(packet.encode().as_array(), &[0x00, 0x00, 0x00, 0x07]);
    let framed = encode_frame(&packet);
    assert_eq!(framed.as_array(), &[0x04, 0x00, 0x00, 0x00, 0x00, 0x07]);
    assert_eq!(framed.position(), 0);
}

#[test]
fn frame_is_length_then_id_then_payload() {
    let payload = buffer_of(&[0xaa; 300]);
    let framed = frame(200, &payload);
    let mut expected = vec![0xac, 0x02, 0xc8, 0x01];
    expected.extend_from_slice(&[0xaa; 300]);
    assert_eq!(framed.as_array(), expected.as_slice());
    let empty = frame(0, &PacketBuf::new());
    assert_eq!(empty.as_array(), &[0x00, 0x00]);
    let largest = frame(u32::MAX, &PacketBuf::new());
    assert_eq!(largest.as_array(), &[0x00, 0xff, 0xff, 0xff, 0xff, 0x0f]);
}

#[test]
fn header_is_read_back_from_a_frame() {
    let mut framed = frame(200, &buffer_of(&[1, 2, 3]));
    let header = read_header(&mut framed);
    assert_eq!(header, Some(FrameHeader { length: 3, id: 200 }));
    assert_eq!(framed.position(), 3);
    assert_eq!(framed.rest().as_array(), &[1, 2, 3]);
}

#[test]
fn header_cut_short_is_not_read() {
    let mut nothing = PacketBuf::new();
    assert_eq!(read_header(&mut nothing), None);
    assert_eq!(nothing.position(), 0);
    let mut only_length = buffer_of(&[0x04]);
    assert_eq!(read_header(&mut only_length), None);
    assert_eq!(only_length.position(), 1);
    let mut open_id = buffer_of(&[0x04, 0x80]);
    assert_eq!(read_header(&mut open_id), None);
    assert_eq!(open_id.position(), 1);
}

#[test]
fn packet_id_is_the_low_thirty_two_bits() {
    assert_eq!(id_of(&FrameHeader { length: 0, id: 0 }), 0);
    assert_eq!(id_of(&FrameHeader { length: 0, id: 7 }), 7);
    assert_eq!(id_of(&FrameHeader { length: 0, id: 0x1_0000_0005 }), 5);
    assert_eq!(id_of(&FrameHeader { length: 0, id: -1 }), u32::MAX);
    assert_eq!(id_of(&FrameHeader { length: 0, id: i64::MIN }), 0);
}

#[test]
fn metadata_needs_a_phase() {
    let header = FrameHeader { length: 4, id: 9 };
    let none: Option<Phase> = None;
    assert!(matches!(
        metadata_for(&header, &none, PacketDirection::Serverbound),
        Err(ProtocolError::PhaseNotSet)
    ));
    let meta = metadata_for(&header, &Some(Phase::Main), PacketDirection::Serverbound);
    match meta {
        Ok(meta) => {
            assert_eq!(meta.id, 9);
            assert_eq!(meta.state, Phase::Main);
            assert_eq!(meta.direction, PacketDirection::Serverbound);
        }
        Err(_) => panic!("a session with a phase has a key"),
    }
}

#[test]
fn opened_frame_holds_the_key_and_the_payload() {
    let mut received = buffer_of(&[0x04, 0x00, 0x00, 0x00, 0x00, 0x07]);
    let opened = open_frame(&mut received, &Some(Phase::Main), PacketDirection::Clientbound);
    match opened {
        Ok(opened) => {
            assert_eq!(opened.header, FrameHeader { length: 4, id: 0 });
            assert_eq!(opened.meta.id, 0);
            assert_eq!(opened.meta.state, Phase::Main);
            assert_eq!(opened.meta.direction, PacketDirection::Clientbound);
            assert_eq!(opened.payload.as_array(), &[0x00, 0x00, 0x00, 0x07]);
            assert_eq!(opened.payload.position(), 0);
        }
        Err(_) => panic!("the frame is well formed"),
    }
}

#[test]
fn announced_length_does_not_bound_the_payload() {
    let mut received = buffer_of(&[0x02, 0x00, 0x00, 0x00, 0x00, 0x07]);
    let packet: Result<Packet, ProtocolError> =
        decode_frame(&mut received, &Some(Phase::Main), PacketDirection::Clientbound);
    assert_eq!(packet, Ok(Packet::Ping { nonce: 7 }));
}

#[test]
fn frame_round_trip_gives_an_equal_packet() {
    for packet in [
        Packet::Ping { nonce: 0 },
        Packet::Ping { nonce: 7 },
        Packet::Ping { nonce: u32::MAX },
        Packet::Hello { name: String::new() },
        Packet::Hello { name: "dragon".to_string() },
    ] {
        let meta = packet.metadata();
        let mut wire = encode_frame(&packet);
        let decoded: Result<Packet, ProtocolError> =
            decode_frame(&mut wire, &Some(meta.state), meta.direction);
        assert_eq!(decoded, Ok(packet));
    }
}

#[test]
fn unknown_id_fails_to_decode() {
    let mut wire = frame(99, &buffer_of(&[0, 0, 0, 7]));
    let decoded: Result<Packet, ProtocolError> =
        decode_frame(&mut wire, &Some(Phase::Main), PacketDirection::Clientbound);
    assert_eq!(decoded, Err(ProtocolError::UnknownPacket));
    let mut wrong_phase = frame(0, &buffer_of(&[0, 0, 0, 7]));
    let decoded: Result<Packet, ProtocolError> =
        decode_frame(&mut wrong_phase, &Some(Phase::Handshake), PacketDirection::Clientbound);
    assert_eq!(decoded, Err(ProtocolError::UnknownPacket));
}

#[test]
fn decoding_before_a_phase_is_set_fails() {
    let session: Session<Phase, Packet> = Session::new(4);
    let mut wire = encode_frame(&Packet::Ping { nonce: 7 });
    assert_eq!(
        session.receive(&mut wire, PacketDirection::Clientbound),
        Err(ProtocolError::PhaseNotSet)
    );
    let mut session = session;
    session.set_state(Phase::Main);
    wire.reset_reading();
    assert_eq!(
        session.receive(&mut wire, PacketDirection::Clientbound),
        Ok(Packet::Ping { nonce: 7 })
    );
}

#[test]
fn malformed_frame_fails_before_the_phase_is_asked() {
    let session: Session<Phase, Packet> = Session::new(4);
    let mut wire = buffer_of(&[0x80]);
    assert_eq!(
        session.receive(&mut wire, PacketDirection::Clientbound),
        Err(ProtocolError::MalformedFrame)
    );
}

#[test]
fn fresh_session_has_no_phase_and_nothing_queued() {
    let session: Session<Phase, Packet> = Session::new(12);
    assert_eq!(session.id(), 12);
    assert_eq!(*session.state(), None);
    assert_eq!(session.queued(), 0);
}

#[test]
fn set_state_and_send_packet_chain() {
    let mut session: Session<Phase, Packet> = Session::new(1);
    session
        .set_state(Phase::Handshake)
        .send_packet(Packet::Ping { nonce: 1 })
        .send_packet(Packet::Ping { nonce: 2 })
        .set_state(Phase::Main);
    assert_eq!(*session.state(), Some(Phase::Main));
    assert_eq!(session.queued(), 2);
}

#[test]
fn queue_keeps_every_packet_without_drains() {
    let mut session: Session<Phase, Packet> = Session::new(1);
    for nonce in 0..10_000u32 {
        session.send_packet(Packet::Ping { nonce });
        assert_eq!(session.queued(), nonce as usize + 1);
    }
    assert_eq!(session.queued(), 10_000);
}

#[test]
fn queue_is_first_in_first_out() {
    let mut session: Session<Phase, Packet> = Session::new(1);
    session.send_packet(Packet::Ping { nonce: 1 });
    session.send_packet(Packet::Ping { nonce: 2 });
    session.send_packet(Packet::Ping { nonce: 3 });
    assert_eq!(session.next_packet(), Some(Packet::Ping { nonce: 1 }));
    session.send_packet(Packet::Ping { nonce: 4 });
    assert_eq!(session.next_packet(), Some(Packet::Ping { nonce: 2 }));
    assert_eq!(session.next_packet(), Some(Packet::Ping { nonce: 3 }));
    assert_eq!(session.next_packet(), Some(Packet::Ping { nonce: 4 }));
    assert_eq!(session.next_packet(), None);
    assert_eq!(session.queued(), 0);
}

#[test]
fn next_frame_frames_the_head() {
    let mut session: Session<Phase, Packet> = Session::new(1);
    assert!(session.next_frame().is_none());
    session.send_packet(Packet::Ping { nonce: 7 });
    session.send_packet(Packet::Ping { nonce: 8 });
    let first = session.next_frame();
    assert_eq!(
        first.map(|f| f.as_array().to_vec()),
        Some(vec![0x04, 0x00, 0x00, 0x00, 0x00, 0x07])
    );
    assert_eq!(session.queued(), 1);
}

#[test]
fn drain_frames_empties_the_queue_in_order() {
    let mut session: Session<Phase, Packet> = Session::new(1);
    session.set_state(Phase::Main);
    session.send_packet(Packet::Ping { nonce: 1 });
    session.send_packet(Packet::Hello { name: "a".to_string() });
    session.send_packet(Packet::Ping { nonce: 3 });
    let frames: Vec<Vec<u8>> =
        session.drain_frames().iter().map(|f| f.as_array().to_vec()).collect();
    assert_eq!(
        frames,
        vec![
            vec![0x04, 0x00, 0x00, 0x00, 0x00, 0x01],
            vec![0x02, 0x01, 0x01, b'a'],
            vec![0x04, 0x00, 0x00, 0x00, 0x00, 0x03],
        ]
    );
    assert_eq!(session.queued(), 0);
    assert_eq!(*session.state(), Some(Phase::Main));
    assert!(session.drain_frames().is_empty());
}

#[test]
fn receiver_starts_with_its_initial_space() {
    let mut receiver = Receiver::new();
    assert_eq!(receiver.received(), 0);
    assert_eq!(receiver.space().len(), 1024);
    assert!(receiver.finish().is_none());
}

#[test]
fn receiver_accumulates_reads_and_grows() {
    let mut receiver = Receiver::new();
    receiver.space()[0..3].copy_from_slice(&[0x04, 0x00, 0x00]);
    assert_eq!(receiver.on_read(ReadOutcome::Read(3)), ReadStep::Again);
    assert_eq!(receiver.received(), 3);
    assert_eq!(receiver.space().len(), 1024 + 6);
    assert_eq!(receiver.on_read(ReadOutcome::Interrupted), ReadStep::Again);
    let offset = receiver.received();
    receiver.space()[offset..offset + 3].copy_from_slice(&[0x00, 0x00, 0x07]);
    assert_eq!(receiver.on_read(ReadOutcome::Read(3)), ReadStep::Again);
    assert_eq!(receiver.received(), 6);
    assert_eq!(receiver.space().len(), 1024 + 6 + 12);
    assert_eq!(receiver.on_read(ReadOutcome::WouldBlock), ReadStep::Done { closed: false });
    let data = receiver.finish();
    match data {
        Some(data) => {
            assert_eq!(data.as_array(), &[0x04, 0x00, 0x00, 0x00, 0x00, 0x07]);
            assert_eq!(data.position(), 0);
        }
        None => panic!("six bytes were received"),
    }
}

#[test]
fn receiver_stops_on_close_and_failure() {
    let mut receiver = Receiver::new();
    assert_eq!(receiver.on_read(ReadOutcome::Read(0)), ReadStep::Done { closed: true });
    assert_eq!(receiver.on_read(ReadOutcome::Failed), ReadStep::Abort);
    assert_eq!(receiver.on_read(ReadOutcome::WouldBlock), ReadStep::Done { closed: false });
    assert_eq!(receiver.received(), 0);
    assert_eq!(receiver.space().len(), 1024);
}

#[test]
fn receiver_refuses_a_read_larger_than_its_space() {
    let mut receiver = Receiver::new();
    assert_eq!(receiver.on_read(ReadOutcome::Read(1025)), ReadStep::Abort);
    assert_eq!(receiver.received(), 0);
    assert_eq!(receiver.on_read(ReadOutcome::Read(1024)), ReadStep::Again);
    assert_eq!(receiver.received(), 1024);
    assert_eq!(receiver.space().len(), 3072);
    assert_eq!(receiver.on_read(ReadOutcome::Read(usize::MAX)), ReadStep::Abort);
    assert_eq!(receiver.received(), 1024);
}

#[test]
fn server_does_not_start_without_an_address() {
    let mut server: Server<Phase, Packet> = Server::new();
    assert_eq!(server.lifecycle(), Lifecycle::Unbound);
    assert_eq!(server.start(), Err(ConfigError::NoAddress));
    assert_eq!(server.lifecycle(), Lifecycle::Unbound);
    assert_eq!(server.accept(), None);
}

#[test]
fn server_goes_from_bound_to_running_to_stopped() {
    let mut server: Server<Phase, Packet> = Server::new();
    server.with_address();
    assert_eq!(server.lifecycle(), Lifecycle::Bound);
    assert_eq!(server.accept(), None);
    assert_eq!(server.start(), Ok(()));
    assert_eq!(server.lifecycle(), Lifecycle::Running);
    assert_eq!(server.start(), Err(ConfigError::NotStartable));
    server.with_address();
    assert_eq!(server.lifecycle(), Lifecycle::Running);
    assert_eq!(server.accept(), Some(1));
    server.stop();
    assert_eq!(server.lifecycle(), Lifecycle::Stopped);
    assert_eq!(server.connection_count(), 0);
    assert_eq!(server.start(), Err(ConfigError::NotStartable));
    assert_eq!(server.accept(), None);
}

fn running_server() -> Server<Phase, Packet> {
    let mut server = Server::new();
    server.with_address();
    assert_eq!(server.start(), Ok(()));
    server
}

#[test]
fn accepted_connections_get_rising_identifiers() {
    let mut server = running_server();
    assert_eq!(server.accept(), Some(1));
    assert_eq!(server.accept(), Some(2));
    assert!(server.remove(1));
    assert!(server.remove(2));
    assert_eq!(server.accept(), Some(3));
    assert_eq!(server.connection_count(), 1);
}

#[test]
fn events_are_told_apart_by_their_token() {
    let mut server = running_server();
    assert_eq!(server.target(0), EventTarget::Listener);
    assert_eq!(server.target(1), EventTarget::Unknown);
    assert_eq!(server.accept(), Some(1));
    assert_eq!(server.target(1), EventTarget::Connection);
    assert_eq!(server.target(2), EventTarget::Unknown);
    server.remove(1);
    assert_eq!(server.target(1), EventTarget::Unknown);
}

#[test]
fn removing_a_connection_twice_is_harmless() {
    let mut server = running_server();
    server.accept();
    server.accept();
    assert!(server.remove(1));
    assert_eq!(server.connection_count(), 1);
    assert!(!server.remove(1));
    assert!(!server.remove(1));
    assert!(!server.remove(77));
    assert_eq!(server.connection_count(), 1);
    assert_eq!(server.target(2), EventTarget::Connection);
}

#[test]
fn removed_connection_takes_no_more_packets() {
    let mut server = running_server();
    server.accept();
    server.remove(1);
    assert!(!server.set_state(1, Phase::Main));
    assert!(!server.send_packet(1, Packet::Ping { nonce: 1 }));
    assert!(server.drain_frames(1).is_none());
    let mut wire = encode_frame(&Packet::Ping { nonce: 7 });
    assert!(server.receive(1, &mut wire).is_none());
}

#[test]
fn server_sessions_are_kept_apart() {
    let mut server = running_server();
    server.accept();
    server.accept();
    assert!(server.set_state(1, Phase::Main));
    assert!(server.send_packet(2, Packet::Ping { nonce: 5 }));
    let mut wire = encode_frame(&Packet::Ping { nonce: 7 });
    assert_eq!(server.receive(1, &mut wire), Some(Ok(Packet::Ping { nonce: 7 })));
    wire.reset_reading();
    assert_eq!(server.receive(2, &mut wire), Some(Err(ProtocolError::PhaseNotSet)));
    assert_eq!(server.drain_frames(1).map(|f| f.len()), Some(0));
    assert_eq!(server.drain_frames(2).map(|f| f.len()), Some(1));
    assert_eq!(server.drain_frames(2).map(|f| f.len()), Some(0));
}

#[test]
fn connections_lists_every_live_identifier_once() {
    let mut server = running_server();
    assert!(server.connections().is_empty());
    for _ in 0..5 {
        server.accept();
    }
    server.remove(3);
    let mut ids = server.connections();
    ids.sort();
    assert_eq!(ids, vec![1, 2, 4, 5]);
}

#[test]
fn broadcast_queues_on_every_connection() {
    let mut server = running_server();
    server.accept();
    server.accept();
    server.accept();
    server.send_packet(2, Packet::Ping { nonce: 1 });
    server.broadcast(&Packet::Ping { nonce: 9 });
    for id in [1usize, 3] {
        let frames: Vec<Vec<u8>> =
            server.drain_frames(id).unwrap_or_default().iter().map(|f| f.as_array().to_vec()).collect();
        assert_eq!(frames, vec![vec![0x04, 0x00, 0x00, 0x00, 0x00, 0x09]]);
    }
    let frames: Vec<Vec<u8>> =
        server.drain_frames(2).unwrap_or_default().iter().map(|f| f.as_array().to_vec()).collect();
    assert_eq!(
        frames,
        vec![
            vec![0x04, 0x00, 0x00, 0x00, 0x00, 0x01],
            vec![0x04, 0x00, 0x00, 0x00, 0x00, 0x09]
        ]
    );
}

#[test]
fn client_does_not_register_without_an_address() {
    let mut client: Client<Phase, Packet> = Client::new();
    assert_eq!(client.lifecycle(), ClientLifecycle::Unconfigured);
    assert_eq!(client.register(), Err(ConfigError::NoAddress));
    assert!(!client.start());
    assert_eq!(client.lifecycle(), ClientLifecycle::Unconfigured);
}

#[test]
fn client_connect_is_established_once() {
    let mut client: Client<Phase, Packet> = Client::new();
    client.with_address();
    assert_eq!(client.lifecycle(), ClientLifecycle::Connecting);
    assert!(!client.start());
    assert_eq!(client.register(), Ok(()));
    assert_eq!(client.lifecycle(), ClientLifecycle::Registered);
    assert_eq!(client.register(), Err(ConfigError::NotStartable));
    assert!(client.start());
    assert_eq!(client.lifecycle(), ClientLifecycle::Running);
    assert!(!client.start());
    client.stop();
    assert_eq!(client.lifecycle(), ClientLifecycle::Stopped);
    assert!(!client.start());
}

#[test]
fn client_owns_the_token_zero() {
    let client: Client<Phase, Packet> = Client::new();
    assert!(client.owns(0));
    assert!(!client.owns(1));
}

#[test]
fn client_session_queues_and_decodes() {
    let mut client: Client<Phase, Packet> = Client::new();
    assert_eq!(*client.state(), None);
    let mut wire = encode_frame(&Packet::Ping { nonce: 7 });
    assert_eq!(client.receive(&mut wire), Err(ProtocolError::PhaseNotSet));
    client.set_state(Phase::Main);
    wire.reset_reading();
    assert_eq!(client.receive(&mut wire), Ok(Packet::Ping { nonce: 7 }));
    client.send_packet(Packet::Ping { nonce: 1 });
    client.send_packet(Packet::Ping { nonce: 2 });
    assert_eq!(client.queued(), 2);
    let frames = client.drain_frames();
    assert_eq!(frames.len(), 2);
    assert_eq!(frames[0].as_array(), &[0x04, 0x00, 0x00, 0x00, 0x00, 0x01]);
    assert_eq!(frames[1].as_array(), &[0x04, 0x00, 0x00, 0x00, 0x00, 0x02]);
    assert_eq!(client.queued(), 0);
}

fn deliver(frames: Vec<PacketBuf>) -> Vec<PacketBuf> {
    let mut delivered = Vec::new();
    for frame in frames {
        let mut receiver = Receiver::new();
        let bytes = frame.as_array();
        receiver.space()[..bytes.len()].copy_from_slice(bytes);
        assert_eq!(receiver.on_read(ReadOutcome::Read(bytes.len())), ReadStep::Again);
        assert_eq!(receiver.on_read(ReadOutcome::WouldBlock), ReadStep::Done { closed: false });
        match receiver.finish() {
            Some(data) => delivered.push(data),
            None => panic!("a frame is never empty"),
        }
    }
    delivered
}

#[test]
fn ping_travels_from_server_to_client_and_back() {
    let mut server = running_server();
    let mut client: Client<Phase, Packet> = Client::new();
    client.with_address();
    assert_eq!(client.register(), Ok(()));
    assert!(client.start());
    client.set_state(Phase::Main);

    let id = match server.accept() {
        Some(id) => id,
        None => panic!("a running server accepts"),
    };
    assert!(server.set_state(id, Phase::Main));
    assert!(server.send_packet(id, Packet::Ping { nonce: 7 }));

    let outbound = server.drain_frames(id).unwrap_or_default();
    assert_eq!(outbound.len(), 1);
    assert_eq!(outbound[0].as_array(), &[0x04, 0x00, 0x00, 0x00, 0x00, 0x07]);

    let mut seen_by_client = Vec::new();
    for mut data in deliver(outbound) {
        match client.receive(&mut data) {
            Ok(packet) => {
                seen_by_client.push(packet.clone());
                client.send_packet(packet);
            }
            Err(_) => panic!("the client is in the main phase"),
        }
    }
    assert_eq!(seen_by_client, vec![Packet::Ping { nonce: 7 }]);

    let replies = client.drain_frames();
    assert_eq!(replies.len(), 1);
    assert_eq!(replies[0].as_array(), &[0x04, 0x00, 0x00, 0x00, 0x00, 0x07]);

    let mut seen_by_server = Vec::new();
    for mut data in deliver(replies) {
        match server.receive(id, &mut data) {
            Some(Ok(packet)) => seen_by_server.push(packet),
            _ => panic!("the session is in the main phase"),
        }
    }
    assert_eq!(seen_by_server, vec![Packet::Ping { nonce: 7 }]);
    assert_eq!(server.drain_frames(id).map(|f| f.len()), Some(0));
}

#[test]
fn default_engines_are_new_engines() {
    let server: Server<Phase, Packet> = Server::default();
    assert_eq!(server.lifecycle(), Lifecycle::Unbound);
    assert_eq!(server.connection_count(), 0);
    let client: Client<Phase, Packet> = Client::default();
    assert_eq!(client.lifecycle(), ClientLifecycle::Unconfigured);
    assert_eq!(client.queued(), 0);
    assert_eq!(*client.state(), None);
}
