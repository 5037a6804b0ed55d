//! Building blocks for stateful, length-prefixed binary protocols: a byte
//! buffer codec, frame encoding, per-connection session state and the
//! decisions of a readiness-driven connection engine.

pub mod buffer;
pub mod client;
pub mod endian;
pub mod frame;
pub mod protocol;
pub mod reader;
pub mod roundtrip;
pub mod server;
pub mod session;
pub mod varint;
