use nettool::ProtocolError;
use nettool::cipher::{decrypt_chunk, encrypt_chunk};
use nettool::client::{client_handle_blob, compose_message};
use nettool::frame::try_parse_frame;

fn client_test_key() -> Vec<u8> {
    (0u8..32).map(|i| i.wrapping_mul(7).wrapping_add(3)).collect()
}

#[test]
fn client_shows_other_senders() {
    let key = client_test_key();
    let blob = encrypt_chunk(&b"[10:00:00] bob: hello\n".to_vec(), &key).unwrap();
    let shown = client_handle_blob(&key, &b"alice".to_vec(), &blob).unwrap();
    assert_eq!(shown, Some(b"[10:00:00] bob: hello".to_vec()));
}

#[test]
fn client_suppresses_own_echo() {
    let key = client_test_key();
    let blob = encrypt_chunk(&b"[10:00:00] alice: hello".to_vec(), &key).unwrap();
    assert_eq!(client_handle_blob(&key, &b"alice".to_vec(), &blob), Ok(None));
}

#[test]
fn client_reports_decrypt_failure() {
    let key = client_test_key();
    let blob = vec![1u8; 17];
    assert_eq!(
        client_handle_blob(&key, &b"alice".to_vec(), &blob),
        Err(ProtocolError::Decrypt)
    );
}

#[test]
fn client_reports_encoding_failure() {
    let key = client_test_key();
    let blob = encrypt_chunk(&vec![0xc3, 0x28], &key).unwrap();
    assert_eq!(
        client_handle_blob(&key, &b"alice".to_vec(), &blob),
        Err(ProtocolError::Encoding)
    );
}

#[test]
fn compose_skips_blank_input() {
    let key = client_test_key();
    assert!(compose_message(&key, &b"alice".to_vec(), 1, 2, 3, &b"   \n".to_vec()).is_none());
    assert!(compose_message(&key, &b"alice".to_vec(), 1, 2, 3, &Vec::new()).is_none());
}

#[test]
fn compose_stamps_and_encrypts() {
    let key = client_test_key();
    let (frame, line) =
        compose_message(&key, &b"alice".to_vec(), 7, 5, 9, &b"  hi there\n".to_vec()).unwrap();
    assert_eq!(line, b"[07:05:09] alice: hi there".to_vec());
    let (blob, consumed) = try_parse_frame(&frame).unwrap();
    assert_eq!(consumed, frame.len());
    assert_eq!(decrypt_chunk(&blob, &key).unwrap(), line);
}
