//! The session: what the engine remembers of one live connection besides its
//! socket. A session has no phase until a handler gives it one, and it keeps
//! every packet it was given, in order, until the packet is written.

use crate::buffer::PacketBuf;
use crate::frame::{decode_frame, encode_frame, is_frame_of, is_receipt_of};
use crate::protocol::{PacketDirection, PacketState, Protocol, ProtocolError};
use vstd::prelude::*;

verus! {

/// What a session is to its callers.
pub struct SessionView<S, T> {
    pub id: usize,
    pub phase: Option<S>,
    pub queue: Seq<T>,
}

impl<S, T> SessionView<S, T> {
    /// The session after its phase was set to `state`.
    pub open spec fn with_phase(self, state: S) -> SessionView<S, T> {
        SessionView { id: self.id, phase: Some(state), queue: self.queue }
    }

    /// The session after `packet` was queued behind the others.
    pub open spec fn send(self, packet: T) -> SessionView<S, T> {
        SessionView { id: self.id, phase: self.phase, queue: self.queue.push(packet) }
    }

    /// The session after each of `packets` was queued, first to last.
    pub open spec fn send_all(self, packets: Seq<T>) -> SessionView<S, T>
        decreases packets.len(),
    {
        if packets.len() == 0 {
            self
        } else {
            self.send(packets.first()).send_all(packets.drop_first())
        }
    }

    /// The session after the packet at the head of its queue was taken.
    pub open spec fn without_head(self) -> SessionView<S, T> {
        SessionView { id: self.id, phase: self.phase, queue: self.queue.drop_first() }
    }

    /// The session with nothing left to write.
    pub open spec fn drained(self) -> SessionView<S, T> {
        SessionView { id: self.id, phase: self.phase, queue: Seq::<T>::empty() }
    }
}

/// The protocol state of one connection: its phase and its outbound queue.
pub struct Session<S: PacketState, T: Protocol<S>> {
    id: usize,
    state: Option<S>,
    packet_queue: Vec<T>,
}

impl<S: PacketState, T: Protocol<S>> View for Session<S, T> {
    type V = SessionView<S, T>;

    closed spec fn view(&self) -> SessionView<S, T> {
        SessionView { id: self.id, phase: self.state, queue: self.packet_queue@ }
    }
}

impl<S: PacketState, T: Protocol<S>> Session<S, T> {
    /// A fresh session: no phase, nothing to write.
    pub fn new(id: usize) -> (session: Session<S, T>)
        ensures
            session@ == (SessionView::<S, T> { id, phase: None, queue: Seq::<T>::empty() }),
    {
        Session { id, state: None, packet_queue: Vec::new() }
    }

    /// The connection identifier of this session.
    pub fn id(&self) -> (id: usize)
        ensures
            id == self@.id,
    {
        self.id
    }

    /// The phase of this session, if it was given one.
    pub fn state(&self) -> (phase: &Option<S>)
        ensures
            *phase == self@.phase,
    {
        &self.state
    }

    /// The number of packets that wait to be written.
    pub fn queued(&self) -> (count: usize)
        ensures
            count == self@.queue.len(),
    {
        self.packet_queue.len()
    }

    /// Puts the session into the phase `state`.
    pub fn set_state(&mut self, state: S) -> (session: &mut Session<S, T>)
        ensures
            session@ == old(self)@.with_phase(state),
            *final(self) == *final(session),
    {
        self.state = Some(state);
        self
    }

    /// Queues `packet` behind the packets that wait already. Nothing is
    /// dropped, however many wait.
    pub fn send_packet(&mut self, packet: T) -> (session: &mut Session<S, T>)
        ensures
            session@ == old(self)@.send(packet),
            *final(self) == *final(session),
    {
        self.packet_queue.push(packet);
        self
    }

    /// Takes the packet at the head of the queue: the one that has waited
    /// longest.
    pub fn next_packet(&mut self) -> (packet: Option<T>)
        ensures
            old(self)@.queue.len() == 0 ==> packet is None && final(self)@ == old(self)@,
            old(self)@.queue.len() > 0 ==> packet == Some(old(self)@.queue.first()) && final(self)@ == old(self)@.without_head(),
    {
        if self.packet_queue.len() == 0 {
            None
        } else {
            let packet = self.packet_queue.remove(0);
            assert(self.packet_queue@ =~= old(self).packet_queue@.drop_first());
            Some(packet)
        }
    }

    /// Takes the packet at the head of the queue and frames it for the wire.
    pub fn next_frame(&mut self) -> (frame: Option<PacketBuf>)
        ensures
            old(self)@.queue.len() == 0 ==> frame is None && final(self)@ == old(self)@,
            old(self)@.queue.len() > 0 ==> frame is Some && is_frame_of(
                frame->0@,
                old(self)@.queue.first(),
            ) && final(self)@ == old(self)@.without_head(),
    {
        match self.next_packet() {
            None => None,
            Some(packet) => Some(encode_frame(&packet)),
        }
    }

    /// Frames every packet of the queue, first in first out, and leaves the
    /// queue empty: frame `i` is a frame of the packet that was `i`th.
    pub fn drain_frames(&mut self) -> (frames: Vec<PacketBuf>)
        ensures
            final(self)@ == old(self)@.drained(),
            frames@.len() == old(self)@.queue.len(),
            forall|i: int|
                0 <= i < frames@.len() ==> is_frame_of(
                    (#[trigger] frames@[i])@,
                    old(self)@.queue[i],
                ),
    {
        let ghost waiting = self.packet_queue@;
        let mut frames: Vec<PacketBuf> = Vec::new();
        while self.packet_queue.len() > 0
            invariant
                self.id == old(self).id,
                self.state == old(self).state,
                frames@.len() + self.packet_queue@.len() == waiting.len(),
                self.packet_queue@ == waiting.skip(frames@.len() as int),
                forall|i: int|
                    0 <= i < frames@.len() ==> is_frame_of((#[trigger] frames@[i])@, waiting[i]),
            decreases self.packet_queue@.len(),
        {
            let ghost done = frames@.len() as int;
            let packet = self.packet_queue.remove(0);
            assert(packet == waiting[done]);
            assert(self.packet_queue@ =~= waiting.skip(done + 1));
            frames.push(encode_frame(&packet));
        }
        assert(self.packet_queue@ =~= Seq::<T>::empty());
        frames
    }

    /// Decodes a received frame under the phase of this session. Before the
    /// session was given a phase every well-formed frame fails with
    /// `PhaseNotSet`: no phase is assumed.
    pub fn receive(&self, received: &mut PacketBuf, direction: PacketDirection) -> (packet:
        Result<T, ProtocolError>)
        ensures
            final(received)@.bytes == old(received)@.bytes,
            is_receipt_of(packet, old(received)@, self@.phase, direction),
    {
        decode_frame(received, &self.state, direction)
    }
}

/// Queuing loses nothing: after any number of packets were queued and none
/// was taken, the queue is what it was with all of them behind, in order,
/// and the phase is what it was.
pub proof fn lemma_send_all<S, T>(session: SessionView<S, T>, packets: Seq<T>)
    ensures
        session.send_all(packets).queue == session.queue + packets,
        session.send_all(packets).queue.len() == session.queue.len() + packets.len(),
        session.send_all(packets).phase == session.phase,
        session.send_all(packets).id == session.id,
    decreases packets.len(),
{
    if packets.len() > 0 {
        lemma_send_all(session.send(packets.first()), packets.drop_first());
        assert(session.queue.push(packets.first()) + packets.drop_first() =~= session.queue
            + packets);
    } else {
        assert(session.queue + packets =~= session.queue);
    }
}

} // verus!
