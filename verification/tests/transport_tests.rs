use ssh_migrator::protocol::{code_to_psk, CHUNK_SIZE};
use ssh_migrator::transport::{
    start_handshake, HandshakeAction, Role, Session, HANDSHAKE_OVERHEAD, MAX_NOISE_MESSAGE,
    TAG_LEN,
};

fn pair(initiator_code: &str, responder_code: &str) -> Option<(Session, Session)> {
    let mut i = start_handshake(Role::Initiator, code_to_psk(initiator_code)).ok()?;
    let mut r = start_handshake(Role::Responder, code_to_psk(responder_code)).ok()?;
    let msg1 = i.write_message().ok()?;
    r.read_message(&msg1).ok()?;
    let msg2 = r.write_message().ok()?;
    i.read_message(&msg2).ok()?;
    Some((i.into_session().ok()?, r.into_session().ok()?))
}

#[test]
fn handshake_with_same_code_succeeds() {
    assert!(pair("482915", "482915").is_some());
}

#[test]
fn handshake_with_wrong_code_fails() {
    assert!(pair("482915", "482916").is_none());
}

#[test]
fn handshake_messages_are_short() {
    let mut i = start_handshake(Role::Initiator, code_to_psk("111111")).unwrap();
    let msg1 = i.write_message().unwrap();
    assert!(msg1.len() <= MAX_NOISE_MESSAGE);
    assert!(msg1.len() >= 32);
}

#[test]
fn encrypt_then_decrypt_roundtrip() {
    let (mut sender, mut receiver) = pair("123456", "123456").unwrap();
    let plain = b"hello ssh".to_vec();
    let cipher = sender.encrypt(&plain).unwrap();
    assert_eq!(cipher.len(), plain.len() + TAG_LEN);
    assert_ne!(&cipher[..plain.len()], &plain[..]);
    assert_eq!(receiver.decrypt(&cipher).unwrap(), plain);
    let back = receiver.encrypt(b"ok").unwrap();
    assert_eq!(sender.decrypt(&back).unwrap(), b"ok".to_vec());
}

#[test]
fn chunk_size_fits_one_noise_message() {
    let (mut sender, mut receiver) = pair("123456", "123456").unwrap();
    let chunk = vec![7u8; CHUNK_SIZE];
    let cipher = sender.encrypt(&chunk).unwrap();
    assert_eq!(cipher.len(), CHUNK_SIZE + TAG_LEN);
    assert_eq!(receiver.decrypt(&cipher).unwrap(), chunk);
}

#[test]
fn oversized_plaintext_is_refused() {
    let (mut sender, _) = pair("123456", "123456").unwrap();
    let big = vec![0u8; MAX_NOISE_MESSAGE - TAG_LEN + 1];
    assert!(sender.encrypt(&big).is_err());
}

#[test]
fn short_or_tampered_ciphertext_is_refused() {
    let (mut sender, mut receiver) = pair("123456", "123456").unwrap();
    assert!(receiver.decrypt(&[1, 2, 3]).is_err());
    let mut cipher = sender.encrypt(b"secret").unwrap();
    cipher[0] ^= 1;
    assert!(receiver.decrypt(&cipher).is_err());
}

#[test]
fn handshake_order_follows_nnpsk2() {
    let mut i = start_handshake(Role::Initiator, code_to_psk("222222")).unwrap();
    let mut r = start_handshake(Role::Responder, code_to_psk("222222")).unwrap();
    assert_eq!(i.next_action(), HandshakeAction::Write);
    assert_eq!(r.next_action(), HandshakeAction::Read);
    let msg1 = i.write_message().unwrap();
    assert_eq!(i.next_action(), HandshakeAction::Read);
    r.read_message(&msg1).unwrap();
    assert_eq!(r.next_action(), HandshakeAction::Write);
    let msg2 = r.write_message().unwrap();
    assert_eq!(r.next_action(), HandshakeAction::Finish);
    i.read_message(&msg2).unwrap();
    assert_eq!(i.next_action(), HandshakeAction::Finish);
    assert!(i.into_session().is_ok());
    assert!(r.into_session().is_ok());
}

#[test]
fn start_handshake_always_builds() {
    for code in ["000000", "999999", "123456"] {
        assert!(start_handshake(Role::Initiator, code_to_psk(code)).is_ok());
        assert!(start_handshake(Role::Responder, code_to_psk(code)).is_ok());
    }
    assert!(start_handshake(Role::Initiator, [0u8; 32]).is_ok());
}

#[test]
fn many_messages_encrypt() {
    let (mut a, mut b) = pair("333333", "333333").unwrap();
    for n in 0..50usize {
        let plain = vec![n as u8; n * 100];
        let c = a.encrypt(&plain).unwrap();
        assert_eq!(b.decrypt(&c).unwrap(), plain);
    }
}

#[test]
fn handshake_messages_are_key_plus_tag() {
    let mut i = start_handshake(Role::Initiator, code_to_psk("444444")).unwrap();
    let mut r = start_handshake(Role::Responder, code_to_psk("444444")).unwrap();
    let msg1 = i.write_message().unwrap();
    assert_eq!(msg1.len(), HANDSHAKE_OVERHEAD);
    r.read_message(&msg1).unwrap();
    let msg2 = r.write_message().unwrap();
    assert_eq!(msg2.len(), HANDSHAKE_OVERHEAD);
    assert_ne!(msg1, msg2);
}

#[test]
fn out_of_turn_steps_are_refused() {
    let mut i = start_handshake(Role::Initiator, code_to_psk("555555")).unwrap();
    let mut r = start_handshake(Role::Responder, code_to_psk("555555")).unwrap();
    assert!(r.write_message().is_err());
    assert_eq!(r.next_action(), HandshakeAction::Read);
    let msg1 = i.write_message().unwrap();
    assert!(i.write_message().is_err());
    assert!(r.read_message(&msg1).is_ok());
    assert!(r.read_message(&msg1).is_err());
    let msg2 = r.write_message().unwrap();
    assert!(r.write_message().is_err());
    i.read_message(&msg2).unwrap();
    assert!(i.read_message(&msg2).is_err());
    assert!(i.write_message().is_err());
}

#[test]
fn unfinished_handshake_does_not_switch_to_transport() {
    let i = start_handshake(Role::Initiator, code_to_psk("666666")).unwrap();
    assert!(i.into_session().is_err());
    let mut r = start_handshake(Role::Responder, code_to_psk("666666")).unwrap();
    let mut i = start_handshake(Role::Initiator, code_to_psk("666666")).unwrap();
    r.read_message(&i.write_message().unwrap()).unwrap();
    assert!(r.into_session().is_err());
}
