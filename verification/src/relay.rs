//! The server side of the protocol: the per-connection state machine and
//! the relay of one incoming message to every registered session.
//!
//! A connection moves through `Handshaking -> AwaitingName -> Relaying ->
//! Terminated`; registration happens on the step into `Relaying`.  The
//! caller drives the stream — reads lines and frames, performs the
//! handshake — and feeds what happened into `conn_step`; every decision
//! about what comes next is made and verified here.
//!
//! `relay_message` is the heart of the relay: a ciphertext blob read from
//! the sender becomes, when it decrypts and is valid text, a broadcast plan
//! over the current sessions; a blob that fails to decrypt or decode skips
//! that one message and keeps the connection.

use vstd::prelude::*;

use crate::ProtocolError;
use crate::bytes::{lemma_trim_len, trim_bytes, trim_spec};
use crate::cipher::{decrypt_chunk, decrypt_spec};
use crate::message::{chat_line, format_chat_line};
use crate::registry::{Delivery, Session, broadcast_deliveries, deliveries_ok};
use vstd::utf8::valid_utf8;

verus! {

/// Relies on core::str::from_utf8: returns Ok exactly on well-formed
/// UTF-8, which vstd's `valid_utf8` states over the byte sequence.
#[verifier::external_body]
pub(crate) fn check_utf8(b: &Vec<u8>) -> (r: bool)
    ensures
        r == valid_utf8(b@),
{
    core::str::from_utf8(b.as_slice()).is_ok()
}

/// Where a server connection stands.
pub enum Phase {
    /// The key exchange is still in flight.
    Handshaking,
    /// The prompt has gone out; the display name has not arrived.
    AwaitingName,
    /// The session is registered and frames are being relayed.
    Relaying,
    /// The connection is done; nothing of it remains registered.
    Terminated,
}

/// What the caller observed on a server connection.
pub enum ServerEvent {
    /// The handshake finished and yielded a session key.
    HandshakeDone,
    /// The handshake failed; nothing was registered.
    HandshakeFailed,
    /// A line arrived while a display name was awaited.
    NameLine(Vec<u8>),
    /// The stream failed while a display name was awaited.
    NameFailed,
    /// A whole frame's payload arrived while relaying.
    FrameIn(Vec<u8>),
    /// The stream ended or failed while relaying.
    StreamEnded,
}

/// What the caller must do next on a server connection.
pub enum ServerAction {
    /// Send the name prompt line.
    Prompt,
    /// Register a session under this trimmed display name.
    Register(Vec<u8>),
    /// Relay this ciphertext blob to the registered sessions.
    Relay(Vec<u8>),
    /// Deregister this connection's display name.
    Deregister,
    /// Drop the connection; nothing was registered.
    Drop,
    /// Nothing.
    Ignore,
}

/// One step of the per-connection state machine: from the current phase
/// and what was observed to the next phase and what to do.  An event that
/// cannot occur in the current phase terminates the connection; a
/// terminated connection ignores everything.
pub fn conn_step(phase: &Phase, event: ServerEvent) -> (r: (Phase, ServerAction))
    ensures
        *phase is Handshaking && event is HandshakeDone ==> r.0 is AwaitingName && r.1 is Prompt,
        *phase is Handshaking && event is HandshakeFailed ==> r.0 is Terminated && r.1 is Drop,
        (*phase is AwaitingName ==> (event matches ServerEvent::NameLine(l) ==> r.0 is Relaying
            && (r.1 matches ServerAction::Register(n) && n@ == trim_spec(l@)))),
        *phase is AwaitingName && event is NameFailed ==> r.0 is Terminated && r.1 is Drop,
        (*phase is Relaying ==> (event matches ServerEvent::FrameIn(b) ==> r.0 is Relaying && (
        r.1 matches ServerAction::Relay(p) && p@ == b@))),
        *phase is Relaying && event is StreamEnded ==> r.0 is Terminated && r.1 is Deregister,
        *phase is Terminated ==> r.0 is Terminated && r.1 is Ignore,
{
    match phase {
        Phase::Handshaking => match event {
            ServerEvent::HandshakeDone => (Phase::AwaitingName, ServerAction::Prompt),
            _ => (Phase::Terminated, ServerAction::Drop),
        },
        Phase::AwaitingName => match event {
            ServerEvent::NameLine(l) => (
                Phase::Relaying,
                ServerAction::Register(trim_bytes(&l)),
            ),
            _ => (Phase::Terminated, ServerAction::Drop),
        },
        Phase::Relaying => match event {
            ServerEvent::FrameIn(b) => (Phase::Relaying, ServerAction::Relay(b)),
            ServerEvent::StreamEnded => (Phase::Terminated, ServerAction::Deregister),
            _ => (Phase::Terminated, ServerAction::Drop),
        },
        Phase::Terminated => (Phase::Terminated, ServerAction::Ignore),
    }
}

/// Relay one incoming blob from a registered sender over a snapshot of the
/// sessions.
///
/// A blob that does not decrypt under the sender's key fails with
/// `Decrypt`; one whose plaintext is not UTF-8 fails with `Encoding`;
/// either failure skips just this message.  Otherwise the trimmed text is
/// stamped into the line `[HH:MM:SS] sender: text` and the result is the
/// broadcast plan over the snapshot: every session's frames encrypted
/// under its own key, the sender's an acknowledgement then the line,
/// everyone else's the line alone.
pub fn relay_message(
    sessions: &Vec<Session>,
    sender_name: &Vec<u8>,
    sender_key: &Vec<u8>,
    blob: &Vec<u8>,
    hour: u8,
    minute: u8,
    second: u8,
) -> (r: Result<Vec<Delivery>, ProtocolError>)
    requires
        sender_key@.len() == 32,
        forall|i: int| 0 <= i < sessions@.len() ==> (#[trigger] sessions@[i]).wf(),
        hour < 24,
        minute < 60,
        second < 60,
        blob@.len() + sender_name@.len() + 128 <= u32::MAX,
    ensures
        decrypt_spec(sender_key@, blob@) is None ==> r == Err::<Vec<Delivery>, ProtocolError>(
            ProtocolError::Decrypt,
        ),
        (decrypt_spec(sender_key@, blob@) matches Some(pt) ==> (!valid_utf8(pt) ==> r == Err::<
            Vec<Delivery>,
            ProtocolError,
        >(ProtocolError::Encoding))),
        (decrypt_spec(sender_key@, blob@) matches Some(pt) ==> (valid_utf8(pt) ==> (r matches Ok(
            ds,
        ) && deliveries_ok(
            ds@,
            sessions@,
            sender_name@,
            chat_line(hour, minute, second, sender_name@, trim_spec(pt)),
        )))),
{
    let plaintext = match decrypt_chunk(blob, sender_key) {
        Ok(p) => p,
        Err(_) => {
            return Err(ProtocolError::Decrypt);
        },
    };
    if !check_utf8(&plaintext) {
        return Err(ProtocolError::Encoding);
    }
    proof {
        lemma_trim_len(plaintext@);
    }
    let text = trim_bytes(&plaintext);
    let line = format_chat_line(hour, minute, second, sender_name, &text);
    Ok(broadcast_deliveries(sessions, sender_name, &line))
}

} // verus!
