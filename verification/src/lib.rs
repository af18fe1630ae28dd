//! Core of a peer-to-peer file/directory/message transfer protocol.
//!
//! The protocol multiplexes logical transfers over one reliable, ordered
//! byte stream. Every frame starts with a fixed 6-byte big-endian header
//! (an [`instruction::Instruction`]) followed by an optional raw payload of
//! `length` bytes. The modules build on each other, leaves first:
//!
//! - [`instruction`]: the operation taxonomy and the frame codec;
//! - [`session`]: the per-connection handshake and lifecycle machine;
//! - [`chunk`]: splitting large payloads into bounded-size chunks;
//! - [`transfer`]: the per-item transfer machine and the frame scripts a
//!   sender emits for a file, a directory, or a message;
//! - [`driver`]: the drivers' decisions — frame dispatch by session state
//!   and the receiver side of a directory transfer.
//!
//! All I/O — sockets, the filesystem, the terminal — stays outside this
//! crate: callers read and write the actual stream and hand frames in and
//! out as plain values.

pub mod chunk;
pub mod driver;
pub mod instruction;
pub mod session;
pub mod transfer;
