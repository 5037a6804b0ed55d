//! The read path of a connection, one readiness event at a time. The caller
//! reads from the socket into the space this module keeps and reports what
//! each read did; the module says whether to read again, and in the end hands
//! out what was received.
//!
//! One readiness event delivers one frame: what a run of reads accumulates is
//! taken for the bytes of a single packet.

use crate::buffer::{zeros, PacketBuf, PacketBufView};
use vstd::prelude::*;

verus! {

/// What one read on a non-blocking socket did.
#[derive(Clone, Copy, Debug, PartialEq, Eq, Structural)]
pub enum ReadOutcome {
    /// The read put this many bytes into the space. None means the peer
    /// closed the connection.
    Read(usize),
    /// No more data for now.
    WouldBlock,
    /// The read was interrupted before it did anything.
    Interrupted,
    /// Any other error.
    Failed,
}

/// What to do after a read.
#[derive(Clone, Copy, Debug, PartialEq, Eq, Structural)]
pub enum ReadStep {
    /// Read again.
    Again,
    /// Stop reading and deliver what was received. `closed` says that the
    /// connection is to be removed afterwards.
    Done { closed: bool },
    /// Stop reading and remove the connection. Nothing is delivered.
    Abort,
}

/// What a receiver is to its callers: the space it reads into, and how many
/// bytes at its start were received.
pub struct ReceiverView {
    pub space: Seq<u8>,
    pub received: nat,
}

/// The size of the space before the first read.
pub open spec fn initial_space() -> nat {
    1024
}

impl ReceiverView {
    /// A read of `count` bytes can be taken in: it stayed inside the free
    /// space, and the space can grow as the rule below asks.
    pub open spec fn fits(self, count: nat) -> bool {
        &&& self.received + count <= self.space.len()
        &&& self.space.len() + 2 * (self.received + count) <= usize::MAX
    }

    /// The receiver after a read of `count` bytes: they count as received,
    /// and the space grows by twice what was received so far, so that the
    /// next read lands in fresh space.
    pub open spec fn grown(self, count: nat) -> ReceiverView {
        ReceiverView {
            space: self.space + zeros(2 * (self.received + count)),
            received: self.received + count,
        }
    }

    /// The step that follows `outcome`.
    pub open spec fn step(self, outcome: ReadOutcome) -> ReadStep {
        match outcome {
            ReadOutcome::Read(count) => if count == 0 {
                ReadStep::Done { closed: true }
            } else if self.fits(count as nat) {
                ReadStep::Again
            } else {
                ReadStep::Abort
            },
            ReadOutcome::WouldBlock => ReadStep::Done { closed: false },
            ReadOutcome::Interrupted => ReadStep::Again,
            ReadOutcome::Failed => ReadStep::Abort,
        }
    }

    /// The receiver after `outcome`.
    pub open spec fn after(self, outcome: ReadOutcome) -> ReceiverView {
        match outcome {
            ReadOutcome::Read(count) => if count > 0 && self.fits(count as nat) {
                self.grown(count as nat)
            } else {
                self
            },
            _ => self,
        }
    }

    /// What was received, cut to its true length, ready to be parsed.
    pub open spec fn delivery(self) -> PacketBufView {
        PacketBufView {
            bytes: if self.received <= self.space.len() {
                self.space.take(self.received as int)
            } else {
                self.space + zeros((self.received - self.space.len()) as nat)
            },
            cursor: 0,
        }
    }
}

/// The state of the read path during one readiness event.
pub struct Receiver {
    scratch: PacketBuf,
    bytes_read: usize,
}

impl View for Receiver {
    type V = ReceiverView;

    closed spec fn view(&self) -> ReceiverView {
        ReceiverView { space: self.scratch@.bytes, received: self.bytes_read as nat }
    }
}

impl Receiver {
    /// A receiver with its initial space, all zero, and nothing received.
    pub fn new() -> (receiver: Receiver)
        ensures
            receiver@ == (ReceiverView { space: zeros(initial_space()), received: 0 }),
    {
        Receiver { scratch: PacketBuf::with_capacity(1024), bytes_read: 0 }
    }

    /// The number of bytes received so far: the next read starts there.
    pub fn received(&self) -> (count: usize)
        ensures
            count == self@.received,
    {
        self.bytes_read
    }

    /// The space to read into. The received bytes stand at its start, and a
    /// read puts the next ones behind them.
    pub fn space(&mut self) -> (space: &mut [u8])
        ensures
            space@ == old(self)@.space,
            final(self)@ == (ReceiverView {
                space: final(space)@,
                received: old(self)@.received,
            }),
    {
        self.scratch.as_mut_array()
    }

    /// Takes in what a read did and says what to do next.
    pub fn on_read(&mut self, outcome: ReadOutcome) -> (step: ReadStep)
        ensures
            step == old(self)@.step(outcome),
            final(self)@ == old(self)@.after(outcome),
    {
        match outcome {
            ReadOutcome::Read(count) => {
                if count == 0 {
                    return ReadStep::Done { closed: true };
                }
                let size = self.scratch.length();
                if self.bytes_read > size || count > size - self.bytes_read {
                    return ReadStep::Abort;
                }
                let total = self.bytes_read + count;
                if total > (usize::MAX - size) / 2 {
                    return ReadStep::Abort;
                }
                self.bytes_read = total;
                self.scratch.resize(size + 2 * total);
                ReadStep::Again
            },
            ReadOutcome::WouldBlock => ReadStep::Done { closed: false },
            ReadOutcome::Interrupted => ReadStep::Again,
            ReadOutcome::Failed => ReadStep::Abort,
        }
    }

    /// Ends the read path: what was received, cut to its true length, or
    /// nothing where no byte arrived.
    pub fn finish(self) -> (delivery: Option<PacketBuf>)
        ensures
            self@.received == 0 ==> delivery is None,
            self@.received > 0 ==> delivery is Some && delivery->0@ == self@.delivery(),
    {
        if self.bytes_read == 0 {
            return None;
        }
        let mut data = self.scratch;
        data.resize(self.bytes_read);
        data.reset_reading();
        Some(data)
    }
}

} // verus!
