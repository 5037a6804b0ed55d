//! The server side of the engine without its sockets: the life of the server,
//! the identifiers it hands out, and the sessions it keeps. The reactor loop
//! asks this module what an event is for and tells it what happened.

use crate::buffer::PacketBuf;
use crate::frame::{is_frame_of, is_receipt_of};
use crate::protocol::{PacketDirection, PacketState, Protocol, ProtocolError};
use crate::session::{Session, SessionView};
use std::collections::HashMap;
use vstd::prelude::*;
use vstd::std_specs::iter::IteratorSpec;

verus! {

broadcast use vstd::std_specs::hash::group_hash_axioms;

/// The states a server goes through.
#[derive(Clone, Copy, Debug, PartialEq, Eq, Structural)]
pub enum Lifecycle {
    /// No listening address yet.
    Unbound,
    /// A listening address, not yet running.
    Bound,
    /// In the reactor loop.
    Running,
    /// Shut down.
    Stopped,
}

/// Why a server does not start.
#[derive(Clone, Copy, Debug, PartialEq, Eq, Structural)]
pub enum ConfigError {
    /// The server was never given an address.
    NoAddress,
    /// The server runs already, or was shut down.
    NotStartable,
}

/// What a readiness event is for.
#[derive(Clone, Copy, Debug, PartialEq, Eq, Structural)]
pub enum EventTarget {
    /// The listening socket: connections wait to be accepted.
    Listener,
    /// A live connection.
    Connection,
    /// Nothing that lives: a late event for a connection that was removed.
    Unknown,
}

/// The token of the listening socket. No connection has this identifier.
pub open spec fn listener_token() -> usize {
    0
}

/// What a server is to its callers.
pub struct ServerView<S, T> {
    pub lifecycle: Lifecycle,
    /// The identifier that the next connection gets.
    pub next_id: nat,
    pub sessions: Map<usize, SessionView<S, T>>,
}

impl<S, T> ServerView<S, T> {
    /// The server after it was given an address.
    pub open spec fn bound(self) -> ServerView<S, T> {
        ServerView {
            lifecycle: if self.lifecycle == Lifecycle::Unbound {
                Lifecycle::Bound
            } else {
                self.lifecycle
            },
            ..self
        }
    }

    /// The server can take a connection in: it runs, and identifiers are left.
    pub open spec fn can_accept(self) -> bool {
        self.lifecycle == Lifecycle::Running && self.next_id < usize::MAX
    }

    /// The server after it took in the connection `next_id`: a fresh session,
    /// without a phase and with nothing to write.
    pub open spec fn accepted(self) -> ServerView<S, T> {
        ServerView {
            lifecycle: self.lifecycle,
            next_id: self.next_id + 1,
            sessions: self.sessions.insert(
                self.next_id as usize,
                SessionView { id: self.next_id as usize, phase: None, queue: Seq::<T>::empty() },
            ),
        }
    }

    /// The server without the connection `id`.
    pub open spec fn removed(self, id: usize) -> ServerView<S, T> {
        ServerView { sessions: self.sessions.remove(id), ..self }
    }

    /// The server with `session` in the place of the connection `id`.
    pub open spec fn with_session(self, id: usize, session: SessionView<S, T>) -> ServerView<
        S,
        T,
    > {
        ServerView { sessions: self.sessions.insert(id, session), ..self }
    }

    /// What an event with this token is for.
    pub open spec fn target(self, token: usize) -> EventTarget {
        if token == listener_token() {
            EventTarget::Listener
        } else if self.sessions.contains_key(token) {
            EventTarget::Connection
        } else {
            EventTarget::Unknown
        }
    }

    /// Identifiers are handed out once and in rising order: every live
    /// connection has one below the next, none has the listener's, and each
    /// session knows its own.
    pub open spec fn wf(self) -> bool {
        &&& 1 <= self.next_id <= usize::MAX
        &&& forall|id: usize| #[trigger]
            self.sessions.contains_key(id) ==> listener_token() < id < self.next_id
                && self.sessions[id].id == id
    }
}

/// The session of a connection that a server accepted.
pub type ServerConnection<S, T> = Session<S, T>;

/// The state of a server: its life, its counter of identifiers, its sessions.
pub struct Server<S: PacketState, T: Protocol<S>> {
    lifecycle: Lifecycle,
    next_id: usize,
    connections: HashMap<usize, Session<S, T>>,
}

impl<S: PacketState, T: Protocol<S>> View for Server<S, T> {
    type V = ServerView<S, T>;

    closed spec fn view(&self) -> ServerView<S, T> {
        ServerView {
            lifecycle: self.lifecycle,
            next_id: self.next_id as nat,
            sessions: Map::new(
                |id: usize| self.connections@.contains_key(id),
                |id: usize| self.connections@[id]@,
            ),
        }
    }
}

impl<S: PacketState, T: Protocol<S>> Default for Server<S, T> {
    fn default() -> (server: Server<S, T>)
        ensures
            server@ == (ServerView::<S, T> {
                lifecycle: Lifecycle::Unbound,
                next_id: 1,
                sessions: Map::empty(),
            }),
            server@.wf(),
    {
        Server::new()
    }
}

impl<S: PacketState, T: Protocol<S>> Server<S, T> {
    /// A server without an address and without connections. The first
    /// connection will get the identifier 1.
    pub fn new() -> (server: Server<S, T>)
        ensures
            server@ == (ServerView::<S, T> {
                lifecycle: Lifecycle::Unbound,
                next_id: 1,
                sessions: Map::empty(),
            }),
            server@.wf(),
    {
        let server = Server {
            lifecycle: Lifecycle::Unbound,
            next_id: 1,
            connections: HashMap::new(),
        };
        assert(server@.sessions =~= Map::empty());
        server
    }

    /// Where the server stands in its life.
    pub fn lifecycle(&self) -> (lifecycle: Lifecycle)
        ensures
            lifecycle == self@.lifecycle,
    {
        self.lifecycle
    }

    /// The number of live connections.
    pub fn connection_count(&self) -> (count: usize)
        ensures
            count == self@.sessions.len(),
    {
        proof {
            self.lemma_dom();
        }
        self.connections.len()
    }

    /// Notes that the server has its listening address.
    pub fn with_address(&mut self) -> (server: &mut Server<S, T>)
        ensures
            server@ == old(self)@.bound(),
            *final(self) == *final(server),
            old(self)@.wf() ==> server@.wf(),
    {
        if self.lifecycle == Lifecycle::Unbound {
            self.lifecycle = Lifecycle::Bound;
        }
        self
    }

    /// Enters the reactor loop. A server without an address does not start:
    /// that is a configuration error, found before the loop is entered.
    pub fn start(&mut self) -> (started: Result<(), ConfigError>)
        ensures
            old(self)@.lifecycle == Lifecycle::Bound ==> started is Ok && final(self)@ == (
            ServerView::<S, T> { lifecycle: Lifecycle::Running, ..old(self)@ }),
            old(self)@.lifecycle == Lifecycle::Unbound ==> started == Err::<(), ConfigError>(
                ConfigError::NoAddress,
            ) && final(self)@ == old(self)@,
            old(self)@.lifecycle == Lifecycle::Running || old(self)@.lifecycle
                == Lifecycle::Stopped ==> started == Err::<(), ConfigError>(
                ConfigError::NotStartable,
            ) && final(self)@ == old(self)@,
            old(self)@.wf() ==> final(self)@.wf(),
    {
        match self.lifecycle {
            Lifecycle::Bound => {
                self.lifecycle = Lifecycle::Running;
                Ok(())
            },
            Lifecycle::Unbound => Err(ConfigError::NoAddress),
            _ => Err(ConfigError::NotStartable),
        }
    }

    /// Shuts the server down: its sessions end with it.
    pub fn stop(&mut self)
        ensures
            final(self)@ == (ServerView::<S, T> {
                lifecycle: Lifecycle::Stopped,
                next_id: old(self)@.next_id,
                sessions: Map::empty(),
            }),
            old(self)@.wf() ==> final(self)@.wf(),
    {
        self.lifecycle = Lifecycle::Stopped;
        self.connections.clear();
        assert(self@.sessions =~= Map::empty());
    }

    /// What an event with this token is for.
    pub fn target(&self, token: usize) -> (target: EventTarget)
        ensures
            target == self@.target(token),
    {
        if token == 0 {
            EventTarget::Listener
        } else if self.connections.contains_key(&token) {
            EventTarget::Connection
        } else {
            EventTarget::Unknown
        }
    }

    /// Takes in an accepted connection: it gets the next identifier, one that
    /// no connection had before, and a fresh session. Nothing happens where
    /// the server does not run or has no identifier left.
    pub fn accept(&mut self) -> (id: Option<usize>)
        ensures
            old(self)@.can_accept() ==> id == Some(old(self)@.next_id as usize) && final(self)@
                == old(self)@.accepted(),
            !old(self)@.can_accept() ==> id is None && final(self)@ == old(self)@,
            old(self)@.wf() ==> final(self)@.wf(),
            old(self)@.wf() && id is Some ==> !old(self)@.sessions.contains_key(id->0),
    {
        if self.lifecycle != Lifecycle::Running || self.next_id == usize::MAX {
            return None;
        }
        let id = self.next_id;
        self.next_id = id + 1;
        self.connections.insert(id, Session::new(id));
        assert(self@.sessions =~= old(self)@.accepted().sessions);
        Some(id)
    }

    /// Removes a connection. Removing one that is not there changes nothing.
    pub fn remove(&mut self, id: usize) -> (was_there: bool)
        ensures
            was_there == old(self)@.sessions.contains_key(id),
            final(self)@ == old(self)@.removed(id),
            old(self)@.wf() ==> final(self)@.wf(),
    {
        let was_there = self.connections.remove(&id).is_some();
        assert(self@.sessions =~= old(self)@.removed(id).sessions);
        was_there
    }

    /// Puts the session of the connection `id` into the phase `state`.
    pub fn set_state(&mut self, id: usize, state: S) -> (found: bool)
        ensures
            found == old(self)@.sessions.contains_key(id),
            found ==> final(self)@ == old(self)@.with_session(
                id,
                old(self)@.sessions[id].with_phase(state),
            ),
            !found ==> final(self)@ == old(self)@,
            old(self)@.wf() ==> final(self)@.wf(),
    {
        match self.connections.remove(&id) {
            Some(mut session) => {
                session.set_state(state);
                self.connections.insert(id, session);
                assert(self@.sessions =~= old(self)@.with_session(
                    id,
                    old(self)@.sessions[id].with_phase(state),
                ).sessions);
                true
            },
            None => {
                assert(self@.sessions =~= old(self)@.sessions);
                false
            },
        }
    }

    /// Queues `packet` on the connection `id`.
    pub fn send_packet(&mut self, id: usize, packet: T) -> (found: bool)
        ensures
            found == old(self)@.sessions.contains_key(id),
            found ==> final(self)@ == old(self)@.with_session(
                id,
                old(self)@.sessions[id].send(packet),
            ),
            !found ==> final(self)@ == old(self)@,
            old(self)@.wf() ==> final(self)@.wf(),
    {
        match self.connections.remove(&id) {
            Some(mut session) => {
                session.send_packet(packet);
                self.connections.insert(id, session);
                assert(self@.sessions =~= old(self)@.with_session(
                    id,
                    old(self)@.sessions[id].send(packet),
                ).sessions);
                true
            },
            None => {
                assert(self@.sessions =~= old(self)@.sessions);
                false
            },
        }
    }

    /// The write path of the connection `id`: frames everything it has to
    /// write, first in first out, and leaves its queue empty.
    pub fn drain_frames(&mut self, id: usize) -> (frames: Option<Vec<PacketBuf>>)
        ensures
            frames is Some == old(self)@.sessions.contains_key(id),
            frames is None ==> final(self)@ == old(self)@,
            frames is Some ==> final(self)@ == old(self)@.with_session(
                id,
                old(self)@.sessions[id].drained(),
            ) && frames->0@.len() == old(self)@.sessions[id].queue.len() && forall|i: int|
                0 <= i < frames->0@.len() ==> is_frame_of(
                    (#[trigger] frames->0@[i])@,
                    old(self)@.sessions[id].queue[i],
                ),
            old(self)@.wf() ==> final(self)@.wf(),
    {
        match self.connections.remove(&id) {
            Some(mut session) => {
                let frames = session.drain_frames();
                self.connections.insert(id, session);
                assert(self@.sessions =~= old(self)@.with_session(
                    id,
                    old(self)@.sessions[id].drained(),
                ).sessions);
                Some(frames)
            },
            None => {
                assert(self@.sessions =~= old(self)@.sessions);
                None
            },
        }
    }

    /// The read path of the connection `id`, behind the socket: decodes what
    /// was received under the phase of its session. A server decodes what is
    /// bound for servers.
    pub fn receive(&self, id: usize, received: &mut PacketBuf) -> (packet: Option<
        Result<T, ProtocolError>,
    >)
        ensures
            final(received)@.bytes == old(received)@.bytes,
            packet is Some == self@.sessions.contains_key(id),
            packet is Some ==> is_receipt_of(
                packet->0,
                old(received)@,
                self@.sessions[id].phase,
                PacketDirection::Serverbound,
            ),
    {
        match self.connections.get(&id) {
            Some(session) => Some(session.receive(received, PacketDirection::Serverbound)),
            None => None,
        }
    }

    /// The identifiers of the live connections, each once. Their order is
    /// the order in which the table is walked, and means nothing.
    pub fn connections(&self) -> (ids: Vec<usize>)
        ensures
            ids@.no_duplicates(),
            ids@.to_set() == self@.sessions.dom(),
    {
        let mut ids: Vec<usize> = Vec::new();
        let ghost walked = self.connections.keys().remaining().unref();
        proof {
            self.lemma_dom();
        }
        for id in iter: self.connections.keys()
            invariant
                iter.seq().unref() == walked,
                ids@.len() == iter.index(),
                forall|j: int| 0 <= j < ids@.len() ==> ids@[j] == walked[j],
        {
            ids.push(*id);
        }
        assert(ids@ =~= walked);
        ids
    }

    /// Queues a copy of `packet` on every live connection.
    pub fn broadcast(&mut self, packet: &T) where T: Clone
        ensures
            final(self)@.lifecycle == old(self)@.lifecycle,
            final(self)@.next_id == old(self)@.next_id,
            final(self)@.sessions.dom() == old(self)@.sessions.dom(),
            forall|id: usize| #[trigger]
                old(self)@.sessions.contains_key(id) ==> exists|copy: T|
                    cloned(*packet, copy) && final(self)@.sessions[id] == old(self)@.sessions[id].send(copy),
            old(self)@.wf() ==> final(self)@.wf(),
    {
        let ids = self.connections();
        let ghost before = self@;
        let mut next: usize = 0;
        while next < ids.len()
            invariant
                next <= ids@.len(),
                ids@.no_duplicates(),
                ids@.to_set() == before.sessions.dom(),
                self@.lifecycle == before.lifecycle,
                self@.next_id == before.next_id,
                self@.sessions.dom() == before.sessions.dom(),
                before.wf() ==> self@.wf(),
                forall|j: int|
                    0 <= j < next ==> exists|copy: T|
                        cloned(*packet, copy) && self@.sessions[#[trigger] ids@[j]]
                            == before.sessions[ids@[j]].send(copy),
                forall|j: int|
                    next <= j < ids@.len() ==> self@.sessions[#[trigger] ids@[j]]
                        == before.sessions[ids@[j]],
            decreases ids@.len() - next,
        {
            let id = ids[next];
            let ghost earlier = self@;
            assert(ids@.to_set().contains(id));
            let copy = packet.clone();
            let ghost sent_now = copy;
            assert(cloned(*packet, sent_now));
            let found = self.send_packet(id, copy);
            assert(found);
            assert(self@.sessions[id] == before.sessions[id].send(sent_now));
            assert(self@.sessions.dom() =~= before.sessions.dom());
            assert forall|j: int| 0 <= j < next + 1 implies exists|copy: T|
                cloned(*packet, copy) && self@.sessions[#[trigger] ids@[j]]
                    == before.sessions[ids@[j]].send(copy) by {
                if j < next {
                    assert(ids@[j] != id);
                    let sent = choose|copy: T|
                        cloned(*packet, copy) && earlier.sessions[ids@[j]]
                            == before.sessions[ids@[j]].send(copy);
                    assert(self@.sessions[ids@[j]] == before.sessions[ids@[j]].send(sent));
                } else {
                    assert(ids@[j] == id);
                    assert(cloned(*packet, sent_now) && self@.sessions[ids@[j]]
                        == before.sessions[ids@[j]].send(sent_now));
                }
            }
            assert forall|j: int| next + 1 <= j < ids@.len() implies self@.sessions[#[trigger] ids@[j]]
                == before.sessions[ids@[j]] by {
                assert(ids@[j] != id);
            }
            next += 1;
        }
        assert forall|id: usize| #[trigger] before.sessions.contains_key(id) implies exists|copy: T|
            cloned(*packet, copy) && self@.sessions[id] == before.sessions[id].send(copy) by {
            assert(ids@.to_set().contains(id));
            let j = choose|j: int| 0 <= j < ids@.len() && ids@[j] == id;
            assert(ids@[j] == id);
        }
    }

    proof fn lemma_dom(&self)
        ensures
            self@.sessions.dom() == self.connections@.dom(),
            self@.sessions.len() == self.connections@.len(),
    {
        assert(self@.sessions.dom() =~= self.connections@.dom());
    }
}

/// Removing a connection twice is removing it once: the second removal finds
/// nothing and changes nothing.
pub proof fn lemma_remove_idempotent<S, T>(server: ServerView<S, T>, id: usize)
    ensures
        !server.removed(id).sessions.contains_key(id),
        server.removed(id).removed(id) == server.removed(id),
        server.removed(id).wf() <== server.wf(),
{
    assert(server.removed(id).sessions.remove(id) =~= server.removed(id).sessions);
}

/// Removing a connection leaves every other connection as it was.
pub proof fn lemma_remove_spares_others<S, T>(server: ServerView<S, T>, id: usize, other: usize)
    requires
        other != id,
    ensures
        server.removed(id).sessions.contains_key(other) == server.sessions.contains_key(other),
        server.sessions.contains_key(other) ==> server.removed(id).sessions[other]
            == server.sessions[other],
{
}

/// An identifier is never handed out twice: what a server accepts is above
/// every identifier it handed out before, also above those that were removed
/// since.
pub proof fn lemma_accept_fresh<S, T>(server: ServerView<S, T>)
    requires
        server.wf(),
        server.can_accept(),
    ensures
        server.accepted().wf(),
        !server.sessions.contains_key(server.next_id as usize),
        forall|id: usize| server.sessions.contains_key(id) ==> id < server.next_id,
        server.accepted().next_id > server.next_id,
{
}

} // verus!
