//! Core of a secure, multi-client message relay over a byte stream.
//!
//! An ephemeral x25519 handshake yields a 32-byte session key; payloads
//! travel as AES-256-CBC blobs (random IV prepended, PKCS#7 padding) inside
//! length-prefixed frames; a registry of live sessions lets the server relay
//! each decrypted message to every registered session, re-encrypted under
//! that recipient's own key.  All socket work stays outside this crate: the
//! functions here turn bytes and events into bytes and decisions, and their
//! contracts pin down what each one returns.

use vstd::prelude::*;

pub mod bytes;
pub mod cipher;
pub mod client;
pub mod frame;
pub mod handshake;
pub mod message;
pub mod registry;
pub mod relay;
pub mod transfer;

verus! {

/// How an operation of the protocol can fail.
///
/// Each variant is fatal or recoverable as the functions that return it
/// state: a `Decrypt` or `Encoding` failure skips one message, a
/// `Handshake`, `ConnectionClosed` or `Io` failure ends that connection,
/// and `InvalidKey` marks a key of the wrong length, rejected before any
/// cryptographic work.
#[derive(Clone, Copy, Debug, PartialEq, Eq, Structural)]
pub enum ProtocolError {
    /// The stream ended or misbehaved during the key exchange.
    Handshake,
    /// A key was not exactly 32 bytes long.
    InvalidKey,
    /// A ciphertext blob was malformed or did not match the key.
    Decrypt,
    /// The peer closed the stream.
    ConnectionClosed,
    /// A transport failure other than a clean close.
    Io,
    /// Decrypted bytes were not valid text.
    Encoding,
}

} // verus!
