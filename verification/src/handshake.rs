//! The ephemeral Diffie-Hellman handshake.
//!
//! Each side draws a fresh 32-byte private scalar, sends the matching
//! x25519 public point (32 raw bytes, written before blocking on the
//! peer's, so that both sides can write-then-read without deadlock), reads
//! the peer's point, and computes the key-agreement output.  The chat
//! protocol uses that raw output directly as its 32-byte session key; the
//! hashed derivation `derive_shared_key` is also offered for callers that
//! want a key-derivation step on top of the agreement.
//!
//! A private scalar lives in a `HandshakeState` that `complete` consumes:
//! it is used for exactly one agreement, never reused across connections or
//! retries.

use vstd::prelude::*;

use crate::ProtocolError;
use crate::cipher::random_bytes;
use sha2::Digest;

verus! {

/// The x25519 function of RFC 7748 on raw bytes: the curve point `point`
/// multiplied by the clamped scalar `scalar`, itself 32 bytes.  A function
/// of its two arguments alone, named here so contracts can speak of it.
pub uninterp spec fn x25519_fn(scalar: Seq<u8>, point: Seq<u8>) -> Seq<u8>;

/// The SHA-256 digest of `data`: a function of `data` alone, named here so
/// contracts can speak of it.
pub uninterp spec fn sha256_fn(data: Seq<u8>) -> Seq<u8>;

/// The x25519 base point: 9 followed by 31 zero bytes.
pub open spec fn basepoint() -> Seq<u8> {
    Seq::new(32, |i: int| if i == 0 { 9u8 } else { 0u8 })
}

/// Relies on x25519_dalek::x25519: the bare RFC 7748 function, deterministic
/// in the scalar and the point, clamping the scalar itself, returning a
/// 32-byte point and never failing.
#[verifier::external_body]
fn x25519_apply(scalar: &Vec<u8>, point: &Vec<u8>) -> (r: Vec<u8>)
    requires
        scalar@.len() == 32,
        point@.len() == 32,
    ensures
        r@ == x25519_fn(scalar@, point@),
        r@.len() == 32,
{
    let mut k = [0u8; 32];
    k.copy_from_slice(scalar.as_slice());
    let mut u = [0u8; 32];
    u.copy_from_slice(point.as_slice());
    x25519_dalek::x25519(k, u).to_vec()
}

/// Relies on sha2::Sha256::digest: the 32-byte SHA-256 digest, a function
/// of the input bytes alone.
#[verifier::external_body]
fn sha256(data: &Vec<u8>) -> (r: Vec<u8>)
    ensures
        r@ == sha256_fn(data@),
        r@.len() == 32,
{
    sha2::Sha256::digest(data.as_slice()).to_vec()
}

/// The base point as bytes: 9 followed by 31 zeros.
fn basepoint_bytes() -> (r: Vec<u8>)
    ensures
        r@ == basepoint(),
{
    let mut r: Vec<u8> = Vec::new();
    r.push(9);
    let mut i: usize = 1;
    while i < 32
        invariant
            1 <= i <= 32,
            r@.len() == i,
            r@[0] == 9u8,
            forall|k: int| 1 <= k < i ==> r@[k] == 0u8,
        decreases 32 - i,
    {
        r.push(0);
        i = i + 1;
    }
    assert(r@ =~= basepoint());
    r
}

/// One side's half-done handshake: the private scalar, held until the
/// peer's public point arrives and then consumed.
pub struct HandshakeState {
    secret: Vec<u8>,
}

impl HandshakeState {
    /// The private scalar, visible to contracts only.
    pub closed spec fn secret_view(&self) -> Seq<u8> {
        self.secret@
    }

    /// The scalar has the one length x25519 takes.
    pub open spec fn wf(&self) -> bool {
        self.secret_view().len() == 32
    }
}

/// Begin a handshake: draw a fresh private scalar and return it, boxed for
/// `handshake_complete`, beside the 32-byte public point to write to the
/// peer before blocking on the peer's own point.
pub fn handshake_begin() -> (r: (HandshakeState, Vec<u8>))
    ensures
        r.0.wf(),
        r.1@ == x25519_fn(r.0.secret_view(), basepoint()),
        r.1@.len() == 32,
{
    let secret = random_bytes(32);
    let base = basepoint_bytes();
    let public = x25519_apply(&secret, &base);
    (HandshakeState { secret }, public)
}

/// Finish a handshake: the key-agreement output of the held scalar and the
/// peer's public point, which is the 32-byte shared session key.  Anything
/// but 32 bytes from the peer is a handshake failure.  Consumes the state:
/// a scalar is used exactly once.
pub fn handshake_complete(state: HandshakeState, peer_public: &Vec<u8>) -> (r: Result<
    Vec<u8>,
    ProtocolError,
>)
    requires
        state.wf(),
    ensures
        peer_public@.len() != 32 ==> r == Err::<Vec<u8>, ProtocolError>(ProtocolError::Handshake),
        (peer_public@.len() == 32 ==> (r matches Ok(key) && key@ == x25519_fn(
            state.secret_view(),
            peer_public@,
        ) && key@.len() == 32)),
{
    if peer_public.len() != 32 {
        return Err(ProtocolError::Handshake);
    }
    Ok(x25519_apply(&state.secret, peer_public))
}

/// The hashed key derivation: SHA-256 of the key-agreement output of the
/// held private scalar and the peer's public point.  Consumes the state, as
/// `handshake_complete` does.
pub fn derive_shared_key(state: HandshakeState, peer_public: &Vec<u8>) -> (r: Result<
    Vec<u8>,
    ProtocolError,
>)
    requires
        state.wf(),
    ensures
        peer_public@.len() != 32 ==> r == Err::<Vec<u8>, ProtocolError>(ProtocolError::Handshake),
        (peer_public@.len() == 32 ==> (r matches Ok(key) && key@ == sha256_fn(
            x25519_fn(state.secret_view(), peer_public@),
        ) && key@.len() == 32)),
{
    if peer_public.len() != 32 {
        return Err(ProtocolError::Handshake);
    }
    let shared = x25519_apply(&state.secret, peer_public);
    Ok(sha256(&shared))
}

} // verus!
