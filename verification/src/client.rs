//! The client side of the engine without its socket: the life of the client
//! and its one session.

use crate::buffer::PacketBuf;
use crate::frame::{is_frame_of, is_receipt_of};
use crate::protocol::{PacketDirection, PacketState, Protocol, ProtocolError};
use crate::server::ConfigError;
use crate::session::{Session, SessionView};
use vstd::prelude::*;

verus! {

/// The states a client goes through.
#[derive(Clone, Copy, Debug, PartialEq, Eq, Structural)]
pub enum ClientLifecycle {
    /// No target address yet.
    Unconfigured,
    /// A target address: the connection is being made.
    Connecting,
    /// The socket is registered for readiness.
    Registered,
    /// In the reactor loop.
    Running,
    /// Shut down.
    Stopped,
}

/// The token of the client's one socket, and the identifier of its session.
pub open spec fn client_token() -> usize {
    0
}

/// What a client is to its callers.
pub struct ClientView<S, T> {
    pub lifecycle: ClientLifecycle,
    pub session: SessionView<S, T>,
}

impl<S, T> ClientView<S, T> {
    /// The client after it was given an address.
    pub open spec fn addressed(self) -> ClientView<S, T> {
        ClientView {
            lifecycle: if self.lifecycle == ClientLifecycle::Unconfigured {
                ClientLifecycle::Connecting
            } else {
                self.lifecycle
            },
            ..self
        }
    }

    /// The client in another state of its life.
    pub open spec fn moved_to(self, lifecycle: ClientLifecycle) -> ClientView<S, T> {
        ClientView { lifecycle, ..self }
    }

    /// The client with `session` for its session.
    pub open spec fn with_session(self, session: SessionView<S, T>) -> ClientView<S, T> {
        ClientView { session, ..self }
    }
}

/// The state of a client: its life and its session.
pub struct Client<S: PacketState, T: Protocol<S>> {
    lifecycle: ClientLifecycle,
    session: Session<S, T>,
}

impl<S: PacketState, T: Protocol<S>> View for Client<S, T> {
    type V = ClientView<S, T>;

    closed spec fn view(&self) -> ClientView<S, T> {
        ClientView { lifecycle: self.lifecycle, session: self.session@ }
    }
}

impl<S: PacketState, T: Protocol<S>> Default for Client<S, T> {
    fn default() -> (client: Client<S, T>)
        ensures
            client@ == (ClientView::<S, T> {
                lifecycle: ClientLifecycle::Unconfigured,
                session: SessionView { id: client_token(), phase: None, queue: Seq::<T>::empty() },
            }),
    {
        Client::new()
    }
}

impl<S: PacketState, T: Protocol<S>> Client<S, T> {
    /// A client without an address. Its session has no phase and nothing to
    /// write.
    pub fn new() -> (client: Client<S, T>)
        ensures
            client@ == (ClientView::<S, T> {
                lifecycle: ClientLifecycle::Unconfigured,
                session: SessionView { id: client_token(), phase: None, queue: Seq::<T>::empty() },
            }),
    {
        Client { lifecycle: ClientLifecycle::Unconfigured, session: Session::new(0) }
    }

    /// Where the client stands in its life.
    pub fn lifecycle(&self) -> (lifecycle: ClientLifecycle)
        ensures
            lifecycle == self@.lifecycle,
    {
        self.lifecycle
    }

    /// The phase of the session, if it was given one.
    pub fn state(&self) -> (phase: &Option<S>)
        ensures
            *phase == self@.session.phase,
    {
        self.session.state()
    }

    /// The number of packets that wait to be written.
    pub fn queued(&self) -> (count: usize)
        ensures
            count == self@.session.queue.len(),
    {
        self.session.queued()
    }

    /// Whether an event with this token is for the client's socket.
    pub fn owns(&self, token: usize) -> (own: bool)
        ensures
            own == (token == client_token()),
    {
        token == 0
    }

    /// Notes that the client has its target address and connects.
    pub fn with_address(&mut self) -> (client: &mut Client<S, T>)
        ensures
            client@ == old(self)@.addressed(),
            *final(self) == *final(client),
    {
        if self.lifecycle == ClientLifecycle::Unconfigured {
            self.lifecycle = ClientLifecycle::Connecting;
        }
        self
    }

    /// Notes that the socket was registered for readiness. A client without
    /// an address has no socket to register: that is a configuration error,
    /// found before the loop is entered.
    pub fn register(&mut self) -> (registered: Result<(), ConfigError>)
        ensures
            old(self)@.lifecycle == ClientLifecycle::Connecting ==> registered is Ok && final(self)@ == old(self)@.moved_to(ClientLifecycle::Registered),
            old(self)@.lifecycle == ClientLifecycle::Unconfigured ==> registered == Err::<
                (),
                ConfigError,
            >(ConfigError::NoAddress) && final(self)@ == old(self)@,
            old(self)@.lifecycle != ClientLifecycle::Connecting && old(self)@.lifecycle
                != ClientLifecycle::Unconfigured ==> registered == Err::<(), ConfigError>(
                ConfigError::NotStartable,
            ) && final(self)@ == old(self)@,
    {
        match self.lifecycle {
            ClientLifecycle::Connecting => {
                self.lifecycle = ClientLifecycle::Registered;
                Ok(())
            },
            ClientLifecycle::Unconfigured => Err(ConfigError::NoAddress),
            _ => Err(ConfigError::NotStartable),
        }
    }

    /// Enters the reactor loop. The answer is true once in the life of a
    /// client, when it goes from registered to running: that is when the
    /// handlers for the established connection are called.
    pub fn start(&mut self) -> (established: bool)
        ensures
            established == (old(self)@.lifecycle == ClientLifecycle::Registered),
            established ==> final(self)@ == old(self)@.moved_to(ClientLifecycle::Running),
            !established ==> final(self)@ == old(self)@,
    {
        if self.lifecycle == ClientLifecycle::Registered {
            self.lifecycle = ClientLifecycle::Running;
            true
        } else {
            false
        }
    }

    /// Shuts the client down.
    pub fn stop(&mut self)
        ensures
            final(self)@ == old(self)@.moved_to(ClientLifecycle::Stopped),
    {
        self.lifecycle = ClientLifecycle::Stopped;
    }

    /// Puts the session into the phase `state`.
    pub fn set_state(&mut self, state: S)
        ensures
            final(self)@ == old(self)@.with_session(old(self)@.session.with_phase(state)),
    {
        self.session.set_state(state);
    }

    /// Queues `packet` behind the packets that wait already.
    pub fn send_packet(&mut self, packet: T)
        ensures
            final(self)@ == old(self)@.with_session(old(self)@.session.send(packet)),
    {
        self.session.send_packet(packet);
    }

    /// The write path: frames everything the session has to write, first in
    /// first out, and leaves its queue empty.
    pub fn drain_frames(&mut self) -> (frames: Vec<PacketBuf>)
        ensures
            final(self)@ == old(self)@.with_session(old(self)@.session.drained()),
            frames@.len() == old(self)@.session.queue.len(),
            forall|i: int|
                0 <= i < frames@.len() ==> is_frame_of(
                    (#[trigger] frames@[i])@,
                    old(self)@.session.queue[i],
                ),
    {
        self.session.drain_frames()
    }

    /// The read path behind the socket: decodes what was received under the
    /// phase of the session. A client decodes what is bound for clients.
    pub fn receive(&self, received: &mut PacketBuf) -> (packet: Result<T, ProtocolError>)
        ensures
            final(received)@.bytes == old(received)@.bytes,
            is_receipt_of(packet, old(received)@, self@.session.phase, PacketDirection::Clientbound),
    {
        self.session.receive(received, PacketDirection::Clientbound)
    }
}

} // verus!
