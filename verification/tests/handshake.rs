use nettool::ProtocolError;
use nettool::handshake::{derive_shared_key, handshake_begin, handshake_complete};
use sha2::Digest;

#[test]
fn handshake_agreement() {
    let (alice, alice_public) = handshake_begin();
    let (bob, bob_public) = handshake_begin();
    assert_eq!(alice_public.len(), 32);
    assert_eq!(bob_public.len(), 32);
    let alice_key = handshake_complete(alice, &bob_public).unwrap();
    let bob_key = handshake_complete(bob, &alice_public).unwrap();
    assert_eq!(alice_key, bob_key);
    assert_eq!(alice_key.len(), 32);
}

#[test]
fn handshake_rejects_short_peer_point() {
    let (state, _public) = handshake_begin();
    let stub = vec![0u8; 31];
    assert_eq!(handshake_complete(state, &stub), Err(ProtocolError::Handshake));
}

#[test]
fn fresh_scalar_every_handshake() {
    let (_a, public_a) = handshake_begin();
    let (_b, public_b) = handshake_begin();
    assert_ne!(public_a, public_b);
}

#[test]
fn derived_keys_agree() {
    let (alice, alice_public) = handshake_begin();
    let (bob, bob_public) = handshake_begin();
    let alice_key = derive_shared_key(alice, &bob_public).unwrap();
    let bob_key = derive_shared_key(bob, &alice_public).unwrap();
    assert_eq!(alice_key, bob_key);
    assert_eq!(alice_key.len(), 32);
}

#[test]
fn derived_key_is_sha256_of_agreement() {
    let (alice, alice_public) = handshake_begin();
    let (bob, bob_public) = handshake_begin();
    let raw = handshake_complete(alice, &bob_public).unwrap();
    let derived = derive_shared_key(bob, &alice_public).unwrap();
    let expected: Vec<u8> = sha2::Sha256::digest(&raw).to_vec();
    assert_eq!(derived, expected);
}

#[test]
fn public_point_matches_x25519() {
    // The public point sent on the wire is the scalar's x25519 image of the
    // base point; two peers that exchange them and multiply by their own
    // scalars land on the same point, which the crate computes directly.
    let (alice, alice_public) = handshake_begin();
    let mut peer = [0u8; 32];
    peer.copy_from_slice(&alice_public);
    let mut k = [0u8; 32];
    k[0] = 77;
    let other_public = x25519_dalek::x25519(k, x25519_dalek::X25519_BASEPOINT_BYTES);
    let key = handshake_complete(alice, &other_public.to_vec()).unwrap();
    let expected = x25519_dalek::x25519(k, peer);
    assert_eq!(key, expected.to_vec());
}
