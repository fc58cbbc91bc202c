use nettool::ProtocolError;
use nettool::bytes::contains_bytes;
use nettool::cipher::{decrypt_chunk, encrypt_chunk};
use nettool::client::{client_handle_blob, compose_message};
use nettool::frame::try_parse_frame;
use nettool::handshake::{handshake_begin, handshake_complete};
use nettool::registry::{Delivery, Registry, Session};
use nettool::relay::{Phase, ServerAction, ServerEvent, conn_step, relay_message};

fn relay_test_key(seed: u8) -> Vec<u8> {
    (0u8..32).map(|i| i.wrapping_mul(31).wrapping_add(seed)).collect()
}

fn relay_test_session(name: &[u8], seed: u8, writer: u64) -> Session {
    Session { name: name.to_vec(), key: relay_test_key(seed), writer }
}

fn open_frame(frame: &Vec<u8>, key: &Vec<u8>) -> Vec<u8> {
    let (blob, consumed) = try_parse_frame(frame).unwrap();
    assert_eq!(consumed, frame.len());
    decrypt_chunk(&blob, key).unwrap()
}

#[test]
fn registry_register_and_count() {
    let mut reg = Registry::new();
    assert_eq!(reg.count(), 0);
    reg.register(relay_test_session(b"alice", 1, 1));
    reg.register(relay_test_session(b"bob", 2, 2));
    assert_eq!(reg.count(), 2);
    let snap = reg.snapshot();
    assert_eq!(snap[0].name, b"alice".to_vec());
    assert_eq!(snap[1].name, b"bob".to_vec());
}

#[test]
fn deregister_removes_all_matches() {
    let mut reg = Registry::new();
    reg.register(relay_test_session(b"alice", 1, 1));
    reg.register(relay_test_session(b"bob", 2, 2));
    reg.register(relay_test_session(b"alice", 3, 3));
    reg.deregister(&b"alice".to_vec());
    assert_eq!(reg.count(), 1);
    assert_eq!(reg.snapshot()[0].name, b"bob".to_vec());
}

#[test]
fn deregister_is_idempotent() {
    let mut reg = Registry::new();
    reg.register(relay_test_session(b"bob", 2, 2));
    reg.deregister(&b"ghost".to_vec());
    reg.deregister(&b"ghost".to_vec());
    assert_eq!(reg.count(), 1);
}

#[test]
fn broadcast_ack_semantics() {
    // The sender gets two frames, an encrypted empty ack then its own copy
    // of the message; the other session gets exactly one frame with the
    // message.
    let mut reg = Registry::new();
    reg.register(relay_test_session(b"alice", 1, 1));
    reg.register(relay_test_session(b"bob", 2, 2));
    let snap = reg.snapshot();
    let blob = encrypt_chunk(&b"hi\n".to_vec(), &relay_test_key(1)).unwrap();
    let plan = relay_message(&snap, &b"alice".to_vec(), &relay_test_key(1), &blob, 12, 34, 56)
        .unwrap();
    assert_eq!(plan.len(), 2);
    assert_eq!(plan[0].name, b"alice".to_vec());
    assert_eq!(plan[0].frames.len(), 2);
    assert_eq!(open_frame(&plan[0].frames[0], &relay_test_key(1)), Vec::<u8>::new());
    assert_eq!(
        open_frame(&plan[0].frames[1], &relay_test_key(1)),
        b"[12:34:56] alice: hi".to_vec()
    );
    assert_eq!(plan[1].name, b"bob".to_vec());
    assert_eq!(plan[1].frames.len(), 1);
    assert_eq!(
        open_frame(&plan[1].frames[0], &relay_test_key(2)),
        b"[12:34:56] alice: hi".to_vec()
    );
}

#[test]
fn broadcast_isolation() {
    // One recipient's write failing costs nobody else anything: each
    // delivery of the plan is self-contained, so the caller can skip a dead
    // writer and still deliver the rest.
    let mut reg = Registry::new();
    reg.register(relay_test_session(b"alice", 1, 1));
    reg.register(relay_test_session(b"bob", 2, 2));
    reg.register(relay_test_session(b"carol", 3, 3));
    let snap = reg.snapshot();
    let blob = encrypt_chunk(&b"to everyone".to_vec(), &relay_test_key(1)).unwrap();
    let plan = relay_message(&snap, &b"alice".to_vec(), &relay_test_key(1), &blob, 1, 2, 3)
        .unwrap();
    let broken_writer: u64 = 2;
    let mut delivered: Vec<&Delivery> = Vec::new();
    for d in &plan {
        if d.writer == broken_writer {
            continue; // the write to bob fails; the loop goes on
        }
        delivered.push(d);
    }
    assert_eq!(delivered.len(), 2);
    assert_eq!(delivered[1].name, b"carol".to_vec());
    assert_eq!(
        open_frame(&delivered[1].frames[0], &relay_test_key(3)),
        b"[01:02:03] alice: to everyone".to_vec()
    );
}

#[test]
fn disconnect_cleanup() {
    // After bob's connection closes and he is deregistered, a broadcast
    // plan holds no delivery for him.
    let mut reg = Registry::new();
    reg.register(relay_test_session(b"alice", 1, 1));
    reg.register(relay_test_session(b"bob", 2, 2));
    reg.deregister(&b"bob".to_vec());
    let snap = reg.snapshot();
    let blob = encrypt_chunk(&b"anyone there?".to_vec(), &relay_test_key(1)).unwrap();
    let plan = relay_message(&snap, &b"alice".to_vec(), &relay_test_key(1), &blob, 9, 8, 7)
        .unwrap();
    assert_eq!(plan.len(), 1);
    assert!(plan.iter().all(|d| d.name != b"bob".to_vec()));
}

#[test]
fn relay_skips_undecryptable_blob() {
    let snap = vec![relay_test_session(b"alice", 1, 1)];
    let garbage = vec![0u8; 7];
    assert_eq!(
        relay_message(&snap, &b"alice".to_vec(), &relay_test_key(1), &garbage, 0, 0, 0),
        Err(ProtocolError::Decrypt)
    );
}

#[test]
fn relay_skips_invalid_utf8() {
    let snap = vec![relay_test_session(b"alice", 1, 1)];
    let blob = encrypt_chunk(&vec![0xff, 0xfe, 0x00], &relay_test_key(1)).unwrap();
    assert_eq!(
        relay_message(&snap, &b"alice".to_vec(), &relay_test_key(1), &blob, 0, 0, 0),
        Err(ProtocolError::Encoding)
    );
}

#[test]
fn relay_wrong_key_is_decrypt_error() {
    let snap = vec![relay_test_session(b"alice", 1, 1)];
    let blob = encrypt_chunk(&b"hello".to_vec(), &relay_test_key(9)).unwrap();
    assert_eq!(
        relay_message(&snap, &b"alice".to_vec(), &relay_test_key(1), &blob, 0, 0, 0),
        Err(ProtocolError::Decrypt)
    );
}

#[test]
fn conn_step_follows_the_state_machine() {
    let (p1, a1) = conn_step(&Phase::Handshaking, ServerEvent::HandshakeDone);
    assert!(matches!(p1, Phase::AwaitingName));
    assert!(matches!(a1, ServerAction::Prompt));

    let (p2, a2) = conn_step(&p1, ServerEvent::NameLine(b"alice\n".to_vec()));
    assert!(matches!(p2, Phase::Relaying));
    match a2 {
        ServerAction::Register(name) => assert_eq!(name, b"alice".to_vec()),
        _ => panic!("expected a registration"),
    }

    let (p3, a3) = conn_step(&p2, ServerEvent::FrameIn(vec![1, 2, 3]));
    assert!(matches!(p3, Phase::Relaying));
    match a3 {
        ServerAction::Relay(blob) => assert_eq!(blob, vec![1, 2, 3]),
        _ => panic!("expected a relay"),
    }

    let (p4, a4) = conn_step(&p3, ServerEvent::StreamEnded);
    assert!(matches!(p4, Phase::Terminated));
    assert!(matches!(a4, ServerAction::Deregister));

    let (p5, a5) = conn_step(&p4, ServerEvent::HandshakeDone);
    assert!(matches!(p5, Phase::Terminated));
    assert!(matches!(a5, ServerAction::Ignore));
}

#[test]
fn conn_step_drops_failed_handshake() {
    let (p, a) = conn_step(&Phase::Handshaking, ServerEvent::HandshakeFailed);
    assert!(matches!(p, Phase::Terminated));
    assert!(matches!(a, ServerAction::Drop));
    let (p2, a2) = conn_step(&Phase::AwaitingName, ServerEvent::NameFailed);
    assert!(matches!(p2, Phase::Terminated));
    assert!(matches!(a2, ServerAction::Drop));
}

#[test]
fn scenario_alice_sends_hi_to_bob() {
    // Two clients handshake with the server, register, and alice sends
    // "hi": bob sees "alice: hi", alice's own echo is suppressed.
    let (server_a, server_a_public) = handshake_begin();
    let (alice, alice_public) = handshake_begin();
    let key_server_alice = handshake_complete(server_a, &alice_public).unwrap();
    let key_alice = handshake_complete(alice, &server_a_public).unwrap();
    assert_eq!(key_server_alice, key_alice);

    let (server_b, server_b_public) = handshake_begin();
    let (bob, bob_public) = handshake_begin();
    let key_server_bob = handshake_complete(server_b, &bob_public).unwrap();
    let key_bob = handshake_complete(bob, &server_b_public).unwrap();

    let mut reg = Registry::new();
    reg.register(Session { name: b"alice".to_vec(), key: key_server_alice, writer: 1 });
    reg.register(Session { name: b"bob".to_vec(), key: key_server_bob.clone(), writer: 2 });

    // alice types "hi"
    let (wire_frame, echoed) =
        compose_message(&key_alice, &b"alice".to_vec(), 12, 34, 56, &b"hi".to_vec()).unwrap();
    assert_eq!(echoed, b"[12:34:56] alice: hi".to_vec());

    // the server reads the frame and relays
    let (blob, _) = try_parse_frame(&wire_frame).unwrap();
    let snap = reg.snapshot();
    let plan = relay_message(&snap, &b"alice".to_vec(), &key_alice, &blob, 12, 34, 56).unwrap();
    assert_eq!(plan.len(), 2);

    // bob's client shows the line
    let (bob_blob, _) = try_parse_frame(&plan[1].frames[0]).unwrap();
    let shown = client_handle_blob(&key_bob, &b"bob".to_vec(), &bob_blob).unwrap().unwrap();
    assert!(contains_bytes(&shown, &b"alice: hi".to_vec()));

    // alice's client suppresses her own broadcast copy
    let (echo_blob, _) = try_parse_frame(&plan[0].frames[1]).unwrap();
    assert_eq!(client_handle_blob(&key_alice, &b"alice".to_vec(), &echo_blob), Ok(None));

    // and her ack decrypts to the empty payload
    let (ack_blob, _) = try_parse_frame(&plan[0].frames[0]).unwrap();
    assert_eq!(decrypt_chunk(&ack_blob, &key_alice).unwrap(), Vec::<u8>::new());
}
