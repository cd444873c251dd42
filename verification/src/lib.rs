//! Framing, chunking and reassembly for the length-delimited RPC protocol that a
//! Flipper Zero speaks over its Bluetooth LE serial service, with the command and
//! response rules layered on top of it.
//!
//! Every function in this crate is verified. Calls into the `protobuf` and
//! `chrono` crates, and one into `core::str`, stand behind small wrappers
//! whose contracts are believed, not proved; each says so in its
//! documentation.
//!
//! From the bottom up:
//! - [`varint`] and [`wire`]: numbers and fields as bytes;
//! - [`message`]: the messages, what each is written as and read back into;
//! - [`size`], [`encode`], [`decode`]: measuring, writing and reading them;
//! - [`roundtrip`]: what was written is read back, and no prefix of it is;
//! - [`chunker`]: cutting bytes into packets;
//! - [`codec`]: the command identifier and the requests;
//! - [`reassembler`]: responses that arrive in fragments and in streams;
//! - [`pacing`]: when to write and how long to wait;
//! - [`flows`], [`listing`], [`sessions`]: what the answers mean, command by
//!   command;
//! - [`clock`]: the host's date and time as the device takes it.

pub mod varint;
pub mod wire;
pub mod message;
pub mod encode;
pub mod size;
pub mod decode;
pub mod roundtrip;
pub mod chunker;
pub mod clock;
pub mod codec;
pub mod reassembler;
pub mod flows;
pub mod listing;
pub mod pacing;
pub mod sessions;
