use bitchat::encryption::{EncryptionError, EncryptionService, EncryptionType};
use bitchat::noise_encryption::{HandshakePattern, NoiseError, NoiseHandshakeState, NoiseRole};

const SECOND: u128 = 1_000_000_000;

fn unhex(text: &str) -> Vec<u8> {
    hex::decode(text).unwrap()
}

fn alice() -> EncryptionService {
    EncryptionService::with_keys([5; 32], [10; 32], [11; 32], [12; 32], true)
}

fn bob() -> EncryptionService {
    EncryptionService::with_keys([6; 32], [20; 32], [21; 32], [22; 32], true)
}

/// A service that has established a Noise session with the peer "peer", and the peer's handshake.
fn with_noise() -> (EncryptionService, NoiseHandshakeState) {
    let mut service = bob();
    let mut peer = NoiseHandshakeState::new(NoiseRole::Initiator, HandshakePattern::XX, [1; 32]);
    let m1 = peer.write_message().unwrap();
    assert_eq!(service.process_noise_handshake("peer", &m1), Ok(None));
    let m2 = service.initiate_noise_handshake("peer").unwrap();
    peer.read_message(&m2).unwrap();
    let m3 = peer.write_message().unwrap();
    assert_eq!(service.process_noise_handshake("peer", &m3), Ok(None));
    (service, peer)
}

#[test]
fn test_key_exchange() {
    let mut alice = EncryptionService::new();
    let mut bob = EncryptionService::new();

    // Exchange public keys
    let alice_keys = alice.get_combined_public_key_data();
    let bob_keys = bob.get_combined_public_key_data();

    assert_eq!(alice_keys.len(), 128);
    assert_eq!(bob_keys.len(), 128);

    // Add each other's keys
    alice.add_peer_public_key("bob", &bob_keys).unwrap();
    bob.add_peer_public_key("alice", &alice_keys).unwrap();

    // Test encryption/decryption
    let message = b"Hello, Bob!";
    let encrypted = alice.encrypt(message, "bob").unwrap();
    let decrypted = bob.decrypt(&encrypted, "alice").unwrap();

    assert_eq!(message, &decrypted[..]);
}

#[test]
fn test_legacy_key_exchange() {
    let mut alice = EncryptionService::new();
    let mut bob = EncryptionService::new();

    // Use legacy 96-byte key format
    let alice_keys = alice.get_legacy_public_key_data();
    let bob_keys = bob.get_legacy_public_key_data();

    assert_eq!(alice_keys.len(), 96);
    assert_eq!(bob_keys.len(), 96);

    // Add each other's keys - should use legacy encryption
    alice.add_peer_public_key("bob", &bob_keys).unwrap();
    bob.add_peer_public_key("alice", &alice_keys).unwrap();

    // Verify both peers are using legacy encryption
    assert_eq!(alice.get_peer_encryption_type("bob"), Some(EncryptionType::Legacy));
    assert_eq!(bob.get_peer_encryption_type("alice"), Some(EncryptionType::Legacy));

    // Test encryption/decryption with legacy protocol
    let message = b"Hello from legacy protocol!";
    let encrypted = alice.encrypt(message, "bob").unwrap();
    let decrypted = bob.decrypt(&encrypted, "alice").unwrap();

    assert_eq!(message, &decrypted[..]);
}

#[test]
fn test_mixed_key_exchange() {
    let mut alice = EncryptionService::new();
    let mut bob = EncryptionService::new();

    // Alice sends legacy 96-byte key, Bob sends 128-byte key with Noise support
    let alice_keys = alice.get_legacy_public_key_data();
    let bob_keys = bob.get_combined_public_key_data();

    assert_eq!(alice_keys.len(), 96);
    assert_eq!(bob_keys.len(), 128);

    // Add each other's keys
    alice.add_peer_public_key("bob", &bob_keys).unwrap();
    bob.add_peer_public_key("alice", &alice_keys).unwrap();

    // Alice should see Bob as supporting Noise (128 bytes)
    // Bob should see Alice as legacy (96 bytes)
    assert_eq!(alice.get_peer_encryption_type("bob"), Some(EncryptionType::Noise));
    assert_eq!(bob.get_peer_encryption_type("alice"), Some(EncryptionType::Legacy));

    // Both should fall back to legacy encryption for compatibility
    let message = b"Cross-protocol message!";
    let encrypted = alice.encrypt(message, "bob").unwrap();
    let decrypted = bob.decrypt(&encrypted, "alice").unwrap();

    assert_eq!(message, &decrypted[..]);
}

#[test]
fn test_channel_key_derivation() {
    let key1 = EncryptionService::derive_channel_key("password123", "#general");
    let key2 = EncryptionService::derive_channel_key("password123", "#general");
    let key3 = EncryptionService::derive_channel_key("different", "#general");

    assert_eq!(key1, key2); // Same password + channel = same key
    assert_ne!(key1, key3); // Different password = different key
}

#[test]
fn channel_keys_have_known_values() {
    assert_eq!(
        EncryptionService::derive_channel_key("password123", "#general").to_vec(),
        unhex("c4752c8f8e032ef8d708e68a0d69ff0ad0b90ad87330b30ab86e27fbbbca3e2e")
    );
    assert_eq!(
        EncryptionService::derive_channel_key("different", "#general").to_vec(),
        unhex("11244f994386aa744e2c7f2631788456aaab4feb18ef0a94a76e34102ab2194e")
    );
}

#[test]
fn key_data_has_known_values() {
    let mut expected =
        unhex("50a61409b1ddd0325e9b16b700e719e9772c07000b1bd7786e907c653d20495d");
    expected.extend(unhex("43a72e714401762df66b68c26dfbdf2682aaec9f2474eca4613e424a0fbafd3c"));
    expected.extend(unhex("66be7e332c7a453332bd9d0a7f7db055f5c5ef1a06ada66d98b39fb6810c473a"));
    assert_eq!(alice().get_legacy_public_key_data(), expected);
    expected.extend(unhex("97c3b10b4d6c133a78ea5dcc1cf6421d3f81ae37b1f628ce14ca6fce7730f333"));
    assert_eq!(alice().get_combined_public_key_data(), expected);
}

#[test]
fn legacy_messages_have_known_values() {
    let (mut alice, mut bob) = (alice(), bob());
    alice.add_peer_public_key("bob", &bob.get_legacy_public_key_data()).unwrap();
    bob.add_peer_public_key("alice", &alice.get_legacy_public_key_data()).unwrap();
    let message = alice.encrypt_with(b"Hello, Bob!", "bob", [9; 12], 0).unwrap();
    assert_eq!(
        message,
        unhex("0909090909090909090909091526dc88ba37a3adc052f9fbbac3d1bcf988b4eb3ca49ffd0a1447")
    );
    assert_eq!(bob.decrypt(&message, "alice").unwrap(), b"Hello, Bob!");
}

#[test]
fn peers_of_either_kind_understand_each_other_after_the_exchange() {
    for (a_noise, b_noise) in [(false, false), (false, true), (true, false), (true, true)] {
        let (mut a, mut b) = (EncryptionService::new(), EncryptionService::new());
        let a_keys = if a_noise {
            a.get_combined_public_key_data()
        } else {
            a.get_legacy_public_key_data()
        };
        let b_keys = if b_noise {
            b.get_combined_public_key_data()
        } else {
            b.get_legacy_public_key_data()
        };
        a.add_peer_public_key("b", &b_keys).unwrap();
        b.add_peer_public_key("a", &a_keys).unwrap();
        let there = a.encrypt_for_peer("b", b"there").unwrap();
        assert_eq!(b.decrypt(&there, "a").unwrap(), b"there");
        let back = b.encrypt(b"", "a").unwrap();
        assert_eq!(a.decrypt(&back, "b").unwrap(), b"");
    }
}

#[test]
fn key_data_of_a_wrong_length_or_without_a_signing_key_is_refused() {
    let mut service = alice();
    for len in [0, 32, 95, 97, 127, 129] {
        assert_eq!(
            service.add_peer_public_key("bob", &vec![1; len]),
            Err(EncryptionError::InvalidPublicKey)
        );
    }
    let mut keys = bob().get_combined_public_key_data();
    // not the encoding of any point
    let no_point = (0..=255u8)
        .map(|b| {
            let mut bytes = [0u8; 32];
            bytes[0] = b;
            bytes
        })
        .find(|bytes| ed25519_dalek::VerifyingKey::from_bytes(bytes).is_err())
        .unwrap();
    keys[32..64].copy_from_slice(&no_point);
    assert_eq!(
        service.add_peer_public_key("bob", &keys),
        Err(EncryptionError::InvalidPublicKey)
    );
    assert!(!service.has_peer_key("bob"));
    assert_eq!(service.get_peer_encryption_type("bob"), None);
    assert_eq!(service.get_encryption_status(), Vec::new());
    // an identity key that is none is replaced by the signing key
    let mut keys = bob().get_combined_public_key_data();
    keys[64..96].copy_from_slice(&no_point);
    service.add_peer_public_key("bob", &keys).unwrap();
    assert_eq!(service.get_peer_identity_key("bob"), Some(keys[32..64].to_vec()));
}

#[test]
fn a_sixth_exchange_within_a_minute_falls_back_to_legacy() {
    let mut service = alice();
    let keys = bob().get_combined_public_key_data();
    for i in 0..5 {
        service.add_peer_public_key_at("bob", &keys, i * SECOND).unwrap();
        assert_eq!(service.get_peer_encryption_type("bob"), Some(EncryptionType::Noise));
    }
    service.add_peer_public_key_at("bob", &keys, 5 * SECOND).unwrap();
    assert_eq!(service.get_peer_encryption_type("bob"), Some(EncryptionType::Legacy));
    service.add_peer_public_key_at("bob", &keys, 60 * SECOND).unwrap();
    assert_eq!(service.get_peer_encryption_type("bob"), Some(EncryptionType::Noise));
}

#[test]
fn a_service_that_does_not_prefer_noise_uses_legacy() {
    let mut service = EncryptionService::with_keys([5; 32], [10; 32], [11; 32], [12; 32], false);
    service.add_peer_public_key("bob", &bob().get_combined_public_key_data()).unwrap();
    assert_eq!(service.get_peer_encryption_type("bob"), Some(EncryptionType::Legacy));
    assert_eq!(
        service.initiate_noise_handshake("bob"),
        Err(EncryptionError::NoSharedSecret)
    );
}

#[test]
fn unknown_peers_have_no_secret() {
    let mut service = alice();
    assert_eq!(service.encrypt(b"x", "bob"), Err(EncryptionError::NoSharedSecret));
    assert_eq!(service.decrypt(&[0; 12], "bob"), Err(EncryptionError::NoSharedSecret));
    assert_eq!(service.decrypt(&[0; 11], "bob"), Err(EncryptionError::DecryptionFailed));
    assert_eq!(service.verify(&[0; 64], b"x", "bob"), Err(EncryptionError::NoSharedSecret));
    assert_eq!(service.get_peer_fingerprint("bob"), None);
    assert_eq!(service.get_peer_identity_key("bob"), None);
    assert!(!service.has_peer_key("bob"));
}

#[test]
fn tampered_messages_are_refused() {
    let (mut a, mut b) = (alice(), bob());
    a.add_peer_public_key("b", &b.get_legacy_public_key_data()).unwrap();
    b.add_peer_public_key("a", &a.get_legacy_public_key_data()).unwrap();
    let mut message = a.encrypt(b"hello", "b").unwrap();
    message[15] ^= 1;
    assert_eq!(b.decrypt(&message, "a"), Err(EncryptionError::DecryptionFailed));
}

#[test]
fn a_noise_session_carries_messages_once_it_is_established() {
    let (mut service, peer) = with_noise();
    assert!(service.has_peer_key("peer"));
    assert_eq!(service.get_peer_encryption_type("peer"), Some(EncryptionType::Noise));
    let (mut send, mut recv) = peer.split().unwrap();
    let c = service.encrypt(b"to the peer", "peer").unwrap();
    assert_eq!(recv.decrypt(&c).unwrap(), b"to the peer");
    let c = send.encrypt(b"from the peer").unwrap();
    assert_eq!(service.decrypt(&c, "peer").unwrap(), b"from the peer");
    assert_eq!(
        service.decrypt(&c, "peer"),
        Err(EncryptionError::NoiseProtocolError(NoiseError::DecryptionFailed))
    );
    assert_eq!(
        service.get_peer_fingerprint("peer"),
        Some("1a92f23852dc908d97316a3b13578281".to_string())
    );
}

#[test]
fn noise_errors_are_passed_on() {
    let mut service = alice();
    assert_eq!(
        service.process_noise_handshake("peer", &[5; 31]),
        Err(EncryptionError::NoiseProtocolError(NoiseError::InvalidMessage))
    );
    assert_eq!(
        service.initiate_noise_handshake("peer"),
        Err(EncryptionError::NoiseProtocolError(NoiseError::InvalidHandshakeState))
    );
    assert_eq!(
        EncryptionError::from(NoiseError::RateLimitExceeded),
        EncryptionError::NoiseProtocolError(NoiseError::RateLimitExceeded)
    );
}

#[test]
fn handshake_messages_are_written_for_peers_that_know_noise() {
    let mut service = alice();
    service.add_peer_public_key("bob", &bob().get_combined_public_key_data()).unwrap();
    let m1 = service.initiate_noise_handshake_with("bob", [3; 32], 0).unwrap();
    assert_eq!(
        m1,
        unhex("5dfedd3b6bd47f6fa28ee15d969d5bb0ea53774d488bdaf9df1c6e0124b3ef22")
    );
}

#[test]
fn fingerprints_fall_back_to_the_identity_key() {
    let mut service = bob();
    service.add_peer_public_key("alice", &alice().get_combined_public_key_data()).unwrap();
    assert_eq!(
        service.get_peer_fingerprint("alice"),
        Some("fdf72a088f18f7399e8c52bce4484415".to_string())
    );
}

#[test]
fn signatures_are_verified_under_the_peers_key() {
    let signer = alice();
    let mut verifier = bob();
    verifier.add_peer_public_key("alice", &signer.get_legacy_public_key_data()).unwrap();
    let signature = signer.sign(b"data");
    assert_eq!(
        signature,
        unhex(
            "f30b44d2215ddf005cfdb94f6ad96cca9d679eb6cb407738d54aa4116842a394\
             c9084244854bfffc896e2c19c60972ff8e1cdc6891f2ea1ebee147551fec830c"
        )
    );
    assert_eq!(verifier.verify(&signature, b"data", "alice"), Ok(true));
    assert_eq!(verifier.verify(&signature, b"date", "alice"), Ok(false));
    assert_eq!(verifier.verify(&[0; 64], b"data", "alice"), Ok(false));
    assert_eq!(
        verifier.verify(&signature[..63], b"data", "alice"),
        Err(EncryptionError::SignatureVerificationFailed)
    );
}

#[test]
fn channel_messages_come_back_and_have_known_values() {
    let service = alice();
    let sealed = service.encrypt_with_key_and_nonce(b"channel", &[7; 32], [8; 12]).unwrap();
    assert_eq!(
        sealed,
        unhex("0808080808080808080808085f283ff0995e8a2945f2498b5bcbe2089db7e0b578f9a4")
    );
    let fresh = service.encrypt_with_key(b"channel", &[7; 32]).unwrap();
    assert_ne!(fresh[..12], sealed[..12]);
    for message in [sealed, fresh] {
        assert_eq!(bob().decrypt_with_key(&message, &[7; 32]).unwrap(), b"channel");
        assert_eq!(
            bob().decrypt_with_key(&message, &[6; 32]),
            Err(EncryptionError::DecryptionFailed)
        );
    }
    assert_eq!(
        service.decrypt_with_key(&[0; 11], &[7; 32]),
        Err(EncryptionError::DecryptionFailed)
    );
}

#[test]
fn the_status_lists_every_peer() {
    let (mut service, _) = with_noise();
    service.add_peer_public_key("legacy", &alice().get_legacy_public_key_data()).unwrap();
    service.add_peer_public_key("waiting", &alice().get_combined_public_key_data()).unwrap();
    assert_eq!(
        service.get_encryption_status(),
        vec![
            ("peer".to_string(), EncryptionType::Noise, true),
            ("legacy".to_string(), EncryptionType::Legacy, true),
            ("waiting".to_string(), EncryptionType::Noise, false),
        ]
    );
}

#[test]
fn a_cleanup_ends_the_sessions_that_need_rekeying() {
    let mut service = bob();
    let keys = alice().get_combined_public_key_data();
    service.add_peer_public_key_at("old", &keys, 0).unwrap();
    service.add_peer_public_key_at("new", &keys, 60 * SECOND).unwrap();
    service.cleanup_noise_sessions_at(1800 * SECOND + 1);
    assert_eq!(
        service.get_encryption_status(),
        vec![
            ("old".to_string(), EncryptionType::Legacy, true),
            ("new".to_string(), EncryptionType::Noise, false),
        ]
    );
    // the session of the one is gone, that of the other is still there
    assert_eq!(service.initiate_noise_handshake("old"), Err(EncryptionError::NoSharedSecret));
    assert_eq!(service.initiate_noise_handshake("new").unwrap().len(), 32);
    service.cleanup_noise_sessions();
    assert_eq!(service.get_peer_encryption_type("new"), Some(EncryptionType::Noise));
}

#[test]
fn operations_concern_one_peer_only() {
    let (mut service, peer) = with_noise();
    let (mut send, _) = peer.split().unwrap();
    let keys = service.get_combined_public_key_data();
    service.add_peer_public_key("alice", &alice().get_combined_public_key_data()).unwrap();
    service.initiate_noise_handshake("alice").unwrap();
    service.encrypt(b"x", "alice").unwrap();
    assert_eq!(service.get_combined_public_key_data(), keys);
    let c = send.encrypt(b"still here").unwrap();
    assert_eq!(service.decrypt(&c, "peer").unwrap(), b"still here");
}

#[test]
fn new_services_have_keys_of_their_own() {
    let (a, b) = (EncryptionService::new(), EncryptionService::new());
    let (a, b) = (a.get_combined_public_key_data(), b.get_combined_public_key_data());
    for i in 0..4 {
        assert_ne!(a[32 * i..32 * (i + 1)], b[32 * i..32 * (i + 1)]);
    }
}

#[test]
fn messages_of_ordinary_lengths_can_be_taken() {
    let (service, _) = with_noise();
    for len in [0, 1, 16, 80, 1 << 20] {
        for peer in ["peer", "nobody"] {
            assert!(service.takes_outgoing(peer, len));
            assert!(service.takes_incoming(peer, len));
            assert!(service.takes_handshake(peer, len));
        }
    }
    let too_long = 274_877_906_817;
    assert!(!service.takes_outgoing("peer", too_long));
    assert!(!service.takes_incoming("peer", too_long + 16));
    assert!(service.takes_outgoing("nobody", too_long));
}

#[test]
fn a_key_is_all_that_encryption_takes() {
    let mut alice = alice();
    assert!(!alice.has_peer_key("bob"));
    assert_eq!(alice.encrypt(b"x", "bob"), Err(EncryptionError::NoSharedSecret));
    alice.add_peer_public_key("bob", &bob().get_combined_public_key_data()).unwrap();
    assert!(alice.has_peer_key("bob"));
    assert_eq!(alice.encrypt(b"x", "bob").unwrap().len(), 1 + 28);

    // a session that is not established yet is no key
    let mut carol = bob();
    let mut peer = NoiseHandshakeState::new(NoiseRole::Initiator, HandshakePattern::XX, [1; 32]);
    let m1 = peer.write_message().unwrap();
    carol.process_noise_handshake("peer", &m1).unwrap();
    assert!(!carol.has_peer_key("peer"));
    assert_eq!(carol.encrypt(b"x", "peer"), Err(EncryptionError::NoSharedSecret));

    let (mut service, _) = with_noise();
    assert!(service.has_peer_key("peer"));
    assert_eq!(service.encrypt(b"xyz", "peer").unwrap().len(), 3 + 16);
    // a peer that is added again falls back to the shared secret, session or not
    service.add_peer_public_key("peer", &alice.get_legacy_public_key_data()).unwrap();
    assert!(service.has_peer_key("peer"));
    assert_eq!(service.encrypt(b"xyz", "peer").unwrap().len(), 3 + 28);
    assert_eq!(service.encrypt_for_peer("peer", b"").unwrap().len(), 28);
}

#[test]
fn messages_have_fixed_overheads() {
    let service = alice();
    for data in [&b""[..], b"x", b"Hello, channel!"] {
        let sealed = service.encrypt_with_key(data, &[7; 32]).unwrap();
        assert_eq!(sealed.len(), data.len() + 28);
        assert_eq!(service.decrypt_with_key(&sealed, &[7; 32]).unwrap(), data);
    }
    let mut service = bob();
    service.add_peer_public_key("peer", &alice().get_combined_public_key_data()).unwrap();
    assert_eq!(service.initiate_noise_handshake("peer").unwrap().len(), 32);
    assert_eq!(service.get_peer_fingerprint("peer").unwrap().len(), 32);
    let (service, _) = with_noise();
    assert_eq!(service.get_peer_fingerprint("peer").unwrap().len(), 32);
}

#[test]
fn the_status_lists_no_peer_twice() {
    let mut service = bob();
    for _ in 0..2 {
        service.add_peer_public_key("a", &alice().get_combined_public_key_data()).unwrap();
        service.add_peer_public_key("b", &alice().get_legacy_public_key_data()).unwrap();
    }
    service.cleanup_noise_sessions();
    let names: Vec<String> =
        service.get_encryption_status().into_iter().map(|(name, _, _)| name).collect();
    assert_eq!(names, ["a", "b"]);
}
