use bitchat::noise_encryption::{
    HandshakePattern, NoiseCipherState, NoiseError, NoiseHandshakeState, NoiseRole, NoiseSession,
    NoiseSessionManager,
};
use x25519_dalek::StaticSecret;

const SECOND: u128 = 1_000_000_000;

fn unhex(text: &str) -> Vec<u8> {
    hex::decode(text).unwrap()
}

fn initiator() -> NoiseHandshakeState {
    NoiseHandshakeState::new(NoiseRole::Initiator, HandshakePattern::XX, [1; 32])
}

fn responder() -> NoiseHandshakeState {
    NoiseHandshakeState::new(NoiseRole::Responder, HandshakePattern::XX, [2; 32])
}

fn completed() -> (NoiseHandshakeState, NoiseHandshakeState) {
    let (mut a, mut b) = (initiator(), responder());
    let m1 = a.write_message_with([3; 32]).unwrap();
    b.read_message(&m1).unwrap();
    let m2 = b.write_message_with([4; 32]).unwrap();
    a.read_message(&m2).unwrap();
    let m3 = a.write_message_with([0; 32]).unwrap();
    b.read_message(&m3).unwrap();
    (a, b)
}

/// A responder session that has completed its handshake with `completed().0`.
fn established() -> NoiseSession {
    let mut a = initiator();
    let mut session = NoiseSession::new("alice".to_string(), NoiseRole::Responder, [2; 32]);
    let m1 = a.write_message_with([3; 32]).unwrap();
    assert_eq!(session.process_handshake_message(&m1), Ok(None));
    let m2 = session.start_handshake_with([4; 32], 0).unwrap();
    a.read_message(&m2).unwrap();
    let m3 = a.write_message().unwrap();
    assert_eq!(session.process_handshake_message(&m3), Ok(None));
    session
}

#[test]
fn test_noise_handshake() {
    let alice_static = StaticSecret::random();
    let bob_static = StaticSecret::random();

    let mut alice = NoiseHandshakeState::new(
        NoiseRole::Initiator,
        HandshakePattern::XX,
        alice_static.to_bytes(),
    );
    let mut bob = NoiseHandshakeState::new(
        NoiseRole::Responder,
        HandshakePattern::XX,
        bob_static.to_bytes(),
    );

    // Step 1: Alice -> Bob
    let msg1 = alice.write_message().unwrap();
    bob.read_message(&msg1).unwrap();

    // Step 2: Bob -> Alice
    let msg2 = bob.write_message().unwrap();
    alice.read_message(&msg2).unwrap();

    // Step 3: Alice -> Bob
    let msg3 = alice.write_message().unwrap();
    bob.read_message(&msg3).unwrap();

    assert!(alice.is_complete());
    assert!(bob.is_complete());

    // Split and test encryption
    let (mut alice_send, mut _alice_recv) = alice.split().unwrap();
    let (mut _bob_send, mut bob_recv) = bob.split().unwrap();

    let plaintext = b"Hello from Alice!";
    let ciphertext = alice_send.encrypt(plaintext).unwrap();
    let decrypted = bob_recv.decrypt(&ciphertext).unwrap();

    assert_eq!(plaintext, &decrypted[..]);
}

#[test]
fn handshake_messages_have_known_values() {
    let (mut a, mut b) = (initiator(), responder());
    let m1 = a.write_message_with([3; 32]).unwrap();
    assert_eq!(
        m1,
        unhex("5dfedd3b6bd47f6fa28ee15d969d5bb0ea53774d488bdaf9df1c6e0124b3ef22")
    );
    assert_eq!(b.read_message(&m1), Ok(Vec::new()));
    let m2 = b.write_message_with([4; 32]).unwrap();
    assert_eq!(
        m2,
        unhex(
            "ac01b2209e86354fb853237b5de0f4fab13c7fcbf433a61c019369617fecf10b\
             75c421823f6ed83ee4c4683dbbcc29b29f92d83dd40025131caef26bf1a8b67a\
             6276e05d6f0b81adf31daf580ce74413"
        )
    );
    assert_eq!(a.read_message(&m2), Ok(Vec::new()));
    let m3 = a.write_message_with([9; 32]).unwrap();
    assert_eq!(
        m3,
        unhex(
            "0949aba597c19696a99c9a68199dc91fc6db81eb1308448145c287ad59194ef4\
             764c9cf1e83377d653f1bd0a3e68558f"
        )
    );
    assert_eq!(b.read_message(&m3), Ok(Vec::new()));
}

#[test]
fn completed_sides_hold_each_others_ciphers_and_keys() {
    let (a, b) = completed();
    let a_public = x25519_dalek::PublicKey::from(&StaticSecret::from([1; 32])).to_bytes();
    let b_public = x25519_dalek::PublicKey::from(&StaticSecret::from([2; 32])).to_bytes();
    assert_eq!(a.get_remote_static(), Some(b_public));
    assert_eq!(b.get_remote_static(), Some(a_public));
    let (mut a_send, mut a_recv) = a.split().unwrap();
    let (mut b_send, mut b_recv) = b.split().unwrap();
    let c0 = a_send.encrypt(b"Hello from Alice!").unwrap();
    let c1 = a_send.encrypt(b"Hello from Alice!").unwrap();
    assert_eq!(
        c0,
        unhex("23bb26e25c9533b1d18faa642b537bb8e7f3b6be1fb8a09af9884cd5090055ec89")
    );
    assert_eq!(
        c1,
        unhex("3fe15d1b2faef3055836ca9bdd12733db0ce03160cdc4f7411711aac4c71d6d8fa")
    );
    assert_eq!(b_recv.decrypt(&c0).unwrap(), b"Hello from Alice!");
    assert_eq!(b_recv.decrypt(&c1).unwrap(), b"Hello from Alice!");
    let r0 = b_send.encrypt(b"Hello from Bob!").unwrap();
    assert_eq!(r0, unhex("06148d9d70e45a720ed16d4144ccd9062ac53cb3deb54092afe3175bac6c2a"));
    assert_eq!(a_recv.decrypt(&r0).unwrap(), b"Hello from Bob!");
}

#[test]
fn public_keys_are_validated() {
    let mut key = [0u8; 32];
    key[31] = 1;
    assert_eq!(NoiseHandshakeState::validate_public_key(&key), Ok(key));
    for bad in [&[0u8; 32][..], &[0xFF; 32], &[1; 31], &[1; 33], &[]] {
        assert_eq!(
            NoiseHandshakeState::validate_public_key(bad),
            Err(NoiseError::InvalidPublicKey)
        );
    }
}

#[test]
fn nobody_writes_or_reads_out_of_turn() {
    let (mut a, mut b) = (initiator(), responder());
    assert_eq!(b.write_message(), Err(NoiseError::InvalidHandshakeState));
    assert_eq!(a.read_message(&[5; 32]), Err(NoiseError::InvalidHandshakeState));
    let m1 = a.write_message_with([3; 32]).unwrap();
    assert_eq!(a.write_message(), Err(NoiseError::InvalidHandshakeState));
    b.read_message(&m1).unwrap();
    assert_eq!(b.read_message(&m1), Err(NoiseError::InvalidHandshakeState));
    // the refusals have changed nothing
    let m2 = b.write_message_with([4; 32]).unwrap();
    assert_eq!(a.read_message(&m2), Ok(Vec::new()));

    let (mut a, mut b) = completed();
    assert_eq!(a.write_message(), Err(NoiseError::InvalidHandshakeState));
    assert_eq!(b.write_message(), Err(NoiseError::InvalidHandshakeState));
    assert_eq!(a.read_message(&m2), Err(NoiseError::InvalidHandshakeState));
    assert_eq!(b.read_message(&m2), Err(NoiseError::InvalidHandshakeState));
}

#[test]
fn bad_handshake_messages_are_refused() {
    let mut b = responder();
    assert_eq!(b.read_message(&[5; 31]), Err(NoiseError::InvalidMessage));
    assert_eq!(b.read_message(&[5; 33]), Err(NoiseError::InvalidMessage));
    assert_eq!(b.read_message(&[0; 32]), Err(NoiseError::InvalidPublicKey));
    let mut a = initiator();
    let m1 = a.write_message().unwrap();
    assert_eq!(a.read_message(&[5; 31]), Err(NoiseError::InvalidMessage));
    assert_eq!(a.read_message(&[0xFF; 80]), Err(NoiseError::InvalidPublicKey));
    b.read_message(&m1).unwrap();
    let mut m2 = b.write_message().unwrap();
    m2[40] ^= 1;
    assert_eq!(a.read_message(&m2), Err(NoiseError::DecryptionFailed));
    assert!(!a.is_complete());
}

#[test]
fn an_incomplete_handshake_does_not_split() {
    assert!(matches!(initiator().split(), Err(NoiseError::InvalidHandshakeState)));
    let mut b = responder();
    b.read_message(&[5; 32]).unwrap();
    assert!(!b.is_complete());
    assert!(matches!(b.split(), Err(NoiseError::InvalidHandshakeState)));
}

#[test]
fn static_keys_never_travel_in_clear() {
    let (mut a, mut b) = (initiator(), responder());
    let a_public = x25519_dalek::PublicKey::from(&StaticSecret::from([1; 32])).to_bytes();
    let b_public = x25519_dalek::PublicKey::from(&StaticSecret::from([2; 32])).to_bytes();
    let m1 = a.write_message().unwrap();
    b.read_message(&m1).unwrap();
    let m2 = b.write_message().unwrap();
    a.read_message(&m2).unwrap();
    let m3 = a.write_message().unwrap();
    assert_eq!((m1.len(), m2.len(), m3.len()), (32, 80, 48));
    assert_ne!(&m1[..], &a_public[..]);
    assert_ne!(&m2[32..64], &b_public[..]);
    assert_ne!(&m3[..32], &a_public[..]);
}

#[test]
fn ciphers_count_messages_and_never_repeat_a_nonce() {
    let mut send = NoiseCipherState::new([7; 32]);
    let first = send.encrypt(b"one").unwrap();
    let second = send.encrypt(b"one").unwrap();
    assert_eq!(first, unhex("58ea4c80e5cccbb648f1ce470afd7df151ef33"));
    assert_eq!(second, unhex("d53d55445907252c85baee20502b15476f2884"));
    let mut recv = NoiseCipherState::new([7; 32]);
    // a message that is refused is not counted
    assert_eq!(recv.decrypt(&second), Err(NoiseError::DecryptionFailed));
    assert_eq!(recv.decrypt(&[]), Err(NoiseError::DecryptionFailed));
    assert_eq!(recv.decrypt(&first).unwrap(), b"one");
    assert_eq!(recv.decrypt(&first), Err(NoiseError::DecryptionFailed));
    assert_eq!(recv.decrypt(&second).unwrap(), b"one");
}

#[test]
fn a_session_is_established_by_reading_the_last_message() {
    let mut a = initiator();
    let mut session = NoiseSession::new("alice".to_string(), NoiseRole::Responder, [2; 32]);
    assert!(!session.is_established());
    let m1 = a.write_message().unwrap();
    assert_eq!(session.process_handshake_message(&m1), Ok(None));
    assert!(!session.is_established());
    let m2 = session.start_handshake().unwrap();
    a.read_message(&m2).unwrap();
    assert!(!session.is_established());
    assert_eq!(session.get_remote_static_key(), None);
    assert_eq!(session.get_remote_fingerprint(), None);
    let m3 = a.write_message().unwrap();
    assert_eq!(session.process_handshake_message(&m3), Ok(None));
    assert!(session.is_established());
    let a_public = x25519_dalek::PublicKey::from(&StaticSecret::from([1; 32])).to_bytes();
    assert_eq!(session.get_remote_static_key(), Some(a_public));
    assert_eq!(
        session.get_remote_fingerprint(),
        Some("1a92f23852dc908d97316a3b13578281".to_string())
    );
}

#[test]
fn an_initiator_session_completes_the_other_end() {
    let mut session = NoiseSession::new("bob".to_string(), NoiseRole::Initiator, [1; 32]);
    let mut b = responder();
    let m1 = session.start_handshake().unwrap();
    b.read_message(&m1).unwrap();
    let m2 = b.write_message().unwrap();
    assert_eq!(session.process_handshake_message(&m2), Ok(None));
    let m3 = session.start_handshake().unwrap();
    b.read_message(&m3).unwrap();
    assert!(b.is_complete());
}

#[test]
fn an_established_session_talks_to_the_other_end() {
    let (a, _) = completed();
    let (mut a_send, mut a_recv) = a.split().unwrap();
    let mut session = established();
    let c = session.encrypt(b"Hello from Bob!").unwrap();
    assert_eq!(a_recv.decrypt(&c).unwrap(), b"Hello from Bob!");
    let c = a_send.encrypt(b"Hello from Alice!").unwrap();
    assert_eq!(session.decrypt(&c).unwrap(), b"Hello from Alice!");
    assert_eq!(session.decrypt(&c), Err(NoiseError::DecryptionFailed));
}

#[test]
fn a_session_refuses_what_is_not_due() {
    let mut session = NoiseSession::new("bob".to_string(), NoiseRole::Responder, [2; 32]);
    assert_eq!(session.encrypt(b"x"), Err(NoiseError::SessionNotEstablished));
    assert_eq!(session.decrypt(b"x"), Err(NoiseError::SessionNotEstablished));
    assert_eq!(session.start_handshake(), Err(NoiseError::InvalidHandshakeState));
    let mut session = established();
    assert_eq!(session.start_handshake(), Err(NoiseError::InvalidHandshakeState));
    assert_eq!(
        session.process_handshake_message(&[5; 32]),
        Err(NoiseError::InvalidHandshakeState)
    );
    assert!(session.is_established());
}

#[test]
fn a_session_needs_rekeying_after_half_an_hour() {
    let mut session = established();
    assert!(!session.needs_rekeying());
    session.encrypt_at(b"x", 5 * SECOND).unwrap();
    assert!(!session.needs_rekeying_at(0));
    assert!(!session.needs_rekeying_at(1805 * SECOND));
    assert!(session.needs_rekeying_at(1805 * SECOND + 1));
    assert!(session.needs_rekeying_at(9000 * SECOND));
    session.decrypt_at(b"garbage", 1800 * SECOND).unwrap_err();
    assert!(session.needs_rekeying_at(1805 * SECOND + 1));
}

#[test]
fn a_session_needs_rekeying_after_900_000_messages() {
    let mut session = established();
    for _ in 0..899_999 {
        session.encrypt_at(&[], 0).unwrap();
    }
    assert!(!session.needs_rekeying_at(0));
    session.encrypt_at(&[], 0).unwrap();
    assert!(session.needs_rekeying_at(0));
    assert!(session.needs_rekeying());
}

#[test]
fn at_most_five_sessions_a_minute_are_begun() {
    let mut manager = NoiseSessionManager::with_static([1; 32]);
    for i in 0..5 {
        assert_eq!(
            manager.create_session_at("bob", NoiseRole::Initiator, i * 10 * SECOND),
            Ok(())
        );
    }
    for time in [40 * SECOND, 59 * SECOND, 60 * SECOND - 1] {
        assert_eq!(
            manager.create_session_at("bob", NoiseRole::Initiator, time),
            Err(NoiseError::RateLimitExceeded)
        );
    }
    // another peer is not concerned
    assert_eq!(manager.create_session_at("carol", NoiseRole::Initiator, 59 * SECOND), Ok(()));
    // the first attempt does not count any more, the second one still does
    assert_eq!(manager.create_session_at("bob", NoiseRole::Initiator, 60 * SECOND), Ok(()));
    assert_eq!(
        manager.create_session_at("bob", NoiseRole::Initiator, 69 * SECOND),
        Err(NoiseError::RateLimitExceeded)
    );
}

#[test]
fn ending_a_session_keeps_its_attempts() {
    let mut manager = NoiseSessionManager::new();
    for _ in 0..5 {
        assert_eq!(manager.create_session("bob", NoiseRole::Initiator), Ok(()));
        assert!(manager.remove_session("bob"));
        assert!(!manager.has_session("bob"));
    }
    assert_eq!(
        manager.create_session("bob", NoiseRole::Initiator),
        Err(NoiseError::RateLimitExceeded)
    );
    assert!(!manager.remove_session("bob"));
}

#[test]
fn sessions_with_different_peers_are_independent() {
    let mut manager = NoiseSessionManager::new();
    manager.create_session("bob", NoiseRole::Initiator).unwrap();
    manager.create_session("carol", NoiseRole::Initiator).unwrap();
    let first = manager.with_session("bob", |s| s.start_handshake().unwrap().len());
    assert_eq!(first, Some(32));
    manager.create_session("carol", NoiseRole::Responder).unwrap();
    manager.remove_session("carol");
    assert_eq!(
        manager.with_session("bob", |s| s.start_handshake()),
        Some(Err(NoiseError::InvalidHandshakeState))
    );
    assert_eq!(manager.with_session("carol", |s| s.is_established()), None);
}

#[test]
fn a_manager_knows_which_sessions_are_established() {
    let mut manager = NoiseSessionManager::with_static([2; 32]);
    assert!(!manager.is_established("alice"));
    manager.create_session("alice", NoiseRole::Responder).unwrap();
    assert!(manager.has_session("alice"));
    assert!(!manager.is_established("alice"));
    let mut a = initiator();
    let m1 = a.write_message().unwrap();
    manager.with_session("alice", |s| s.process_handshake_message(&m1)).unwrap().unwrap();
    let m2 = manager.with_session("alice", |s| s.start_handshake()).unwrap().unwrap();
    a.read_message(&m2).unwrap();
    let m3 = a.write_message().unwrap();
    manager.with_session("alice", |s| s.process_handshake_message(&m3)).unwrap().unwrap();
    assert!(manager.is_established("alice"));
}

#[test]
fn a_manager_lists_the_sessions_that_need_rekeying() {
    let mut manager = NoiseSessionManager::new();
    manager.create_session_at("a", NoiseRole::Initiator, 0).unwrap();
    manager.create_session_at("b", NoiseRole::Initiator, 100 * SECOND).unwrap();
    manager.create_session_at("c", NoiseRole::Initiator, 1).unwrap();
    assert_eq!(manager.get_sessions_needing_rekey_at(1800 * SECOND), Vec::<String>::new());
    assert_eq!(manager.get_sessions_needing_rekey_at(1800 * SECOND + 1), vec!["a".to_string()]);
    assert_eq!(
        manager.get_sessions_needing_rekey_at(1800 * SECOND + 2),
        vec!["a".to_string(), "c".to_string()]
    );
    assert_eq!(manager.get_sessions_needing_rekey(), Vec::<String>::new());
}

#[test]
fn our_own_fingerprint_has_a_known_value() {
    let manager = NoiseSessionManager::with_static([1; 32]);
    assert_eq!(
        manager.get_local_static_public(),
        x25519_dalek::PublicKey::from(&StaticSecret::from([1; 32])).to_bytes()
    );
    assert_eq!(manager.get_local_fingerprint(), "1a92f23852dc908d97316a3b13578281");
}

#[test]
fn random_secrets_differ() {
    let a = NoiseSessionManager::new();
    let b = NoiseSessionManager::new();
    assert_ne!(a.get_local_static_public(), b.get_local_static_public());
    assert_ne!(initiator().write_message().unwrap(), initiator().write_message().unwrap());
}

#[test]
fn handshake_messages_of_ordinary_lengths_can_be_read() {
    let (mut a, mut b) = (initiator(), responder());
    let m1 = a.write_message().unwrap();
    b.read_message(&m1).unwrap();
    for len in [0, 31, 32, 48, 80, 1000] {
        assert!(a.can_read(len));
        assert!(b.can_read(len));
    }
    assert!(!a.can_read(274_877_906_817 + 48));
    assert!(b.can_read(274_877_906_817 + 48));
}

#[test]
fn handshake_messages_have_fixed_lengths() {
    let (mut a, mut b) = (initiator(), responder());
    let m1 = a.write_message().unwrap();
    b.read_message(&m1).unwrap();
    let m2 = b.write_message().unwrap();
    a.read_message(&m2).unwrap();
    let m3 = a.write_message().unwrap();
    assert_eq!([m1.len(), m2.len(), m3.len()], [32, 80, 48]);
    let mut session = NoiseSession::new("bob".to_string(), NoiseRole::Initiator, [1; 32]);
    assert_eq!(session.start_handshake().unwrap().len(), 32);
}

#[test]
fn every_public_key_that_is_sent_is_accepted() {
    for byte in 0..=255u8 {
        let mut a = NoiseHandshakeState::new(
            NoiseRole::Initiator,
            HandshakePattern::XX,
            [byte; 32],
        );
        let mut b = responder();
        let m1 = a.write_message_with([byte; 32]).unwrap();
        assert!(NoiseHandshakeState::validate_public_key(&m1).is_ok());
        b.read_message(&m1).unwrap();
        let m2 = b.write_message_with([byte; 32]).unwrap();
        a.read_message(&m2).unwrap();
        let m3 = a.write_message().unwrap();
        b.read_message(&m3).unwrap();
        assert!(a.is_complete() && b.is_complete());
    }
}

#[test]
fn an_established_session_is_complete() {
    let session = established();
    assert!(session.is_established());
    assert!(session.get_remote_static_key().is_some());
    assert_eq!(session.get_remote_fingerprint().unwrap().len(), 32);
    let session = NoiseSession::new("bob".to_string(), NoiseRole::Responder, [1; 32]);
    assert!(!session.is_established());
    assert_eq!(session.get_remote_static_key(), None);
    assert_eq!(session.get_remote_fingerprint(), None);
}

#[test]
fn a_session_with_a_clock_of_its_own_is_asked_by_it() {
    let mut manager = NoiseSessionManager::new();
    manager.create_session("a", NoiseRole::Initiator).unwrap();
    manager.create_session_at("b", NoiseRole::Initiator, 10).unwrap();
    let own = NoiseSession::new("a".to_string(), NoiseRole::Responder, [2; 32]);
    manager.with_session("a", move |session| *session = own).unwrap();
    assert_eq!(manager.get_sessions_needing_rekey(), Vec::<String>::new());
    assert_eq!(
        manager.get_sessions_needing_rekey_at(u128::MAX),
        vec!["a".to_string(), "b".to_string()]
    );
}
