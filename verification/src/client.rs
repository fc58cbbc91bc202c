//! The client side of the protocol: what to show of an incoming frame, and
//! how to turn a typed line into an outgoing frame.
//!
//! The caller owns the socket and the keyboard; the decisions — decrypt,
//! decode, suppress the client's own echoed broadcast, skip blank input,
//! stamp and encrypt a message — are made and verified here.

use vstd::prelude::*;

use crate::ProtocolError;
use crate::bytes::{contains_bytes, contains_seq, copy_bytes, trim_bytes, trim_spec};
use crate::cipher::{decrypt_chunk, decrypt_spec};
use crate::message::{chat_line, format_chat_line};
use crate::registry::{frame_for, seal_frame};
use crate::relay::check_utf8;
use vstd::utf8::valid_utf8;

verus! {

/// What to do with one incoming blob on the client.
///
/// A blob that does not decrypt under the session key fails with
/// `Decrypt`; one whose plaintext is not UTF-8 fails with `Encoding`; both
/// are recoverable — the caller warns locally and keeps the connection.  A
/// line that carries the client's own name followed by a colon is the
/// client's own broadcast echoed back and is suppressed: `Ok(None)`.
/// Anything else is shown trimmed: `Ok(Some(text))`.
pub fn client_handle_blob(key: &Vec<u8>, own_name: &Vec<u8>, blob: &Vec<u8>) -> (r: Result<
    Option<Vec<u8>>,
    ProtocolError,
>)
    requires
        key@.len() == 32,
    ensures
        decrypt_spec(key@, blob@) is None ==> r == Err::<Option<Vec<u8>>, ProtocolError>(
            ProtocolError::Decrypt,
        ),
        (decrypt_spec(key@, blob@) matches Some(pt) ==> (!valid_utf8(pt) ==> r == Err::<
            Option<Vec<u8>>,
            ProtocolError,
        >(ProtocolError::Encoding))),
        (decrypt_spec(key@, blob@) matches Some(pt) ==> (valid_utf8(pt) && contains_seq(
            pt,
            own_name@.push(58u8),
        ) ==> r == Ok::<Option<Vec<u8>>, ProtocolError>(None))),
        (decrypt_spec(key@, blob@) matches Some(pt) ==> (valid_utf8(pt) && !contains_seq(
            pt,
            own_name@.push(58u8),
        ) ==> (r matches Ok(o) && (o matches Some(t) && t@ == trim_spec(pt))))),
{
    let plaintext = match decrypt_chunk(blob, key) {
        Ok(p) => p,
        Err(_) => {
            return Err(ProtocolError::Decrypt);
        },
    };
    if !check_utf8(&plaintext) {
        return Err(ProtocolError::Encoding);
    }
    let mut pattern = copy_bytes(own_name);
    pattern.push(58);
    assert(pattern@ =~= own_name@.push(58u8));
    if contains_bytes(&plaintext, &pattern) {
        return Ok(None);
    }
    Ok(Some(trim_bytes(&plaintext)))
}

/// Turn a locally typed line into what goes out and what to echo locally.
///
/// Input that is blank once trimmed sends nothing.  Otherwise the trimmed
/// text is stamped into the line `[HH:MM:SS] name: text`; the result is
/// the frame to write — the line encrypted under the session key — beside
/// the line itself for the local echo.
pub fn compose_message(
    key: &Vec<u8>,
    name: &Vec<u8>,
    hour: u8,
    minute: u8,
    second: u8,
    input: &Vec<u8>,
) -> (r: Option<(Vec<u8>, Vec<u8>)>)
    requires
        key@.len() == 32,
        hour < 24,
        minute < 60,
        second < 60,
        input@.len() + name@.len() + 128 <= u32::MAX,
    ensures
        trim_spec(input@).len() == 0 <==> r is None,
        (r matches Some(fl) && fl.1@ == chat_line(hour, minute, second, name@, trim_spec(input@))
            && frame_for(fl.0@, key@, fl.1@)) || r is None,
{
    proof {
        crate::bytes::lemma_trim_len(input@);
    }
    let text = trim_bytes(input);
    if text.len() == 0 {
        return None;
    }
    let line = format_chat_line(hour, minute, second, name, &text);
    let frame = seal_frame(&line, key);
    Some((frame, line))
}

} // verus!
