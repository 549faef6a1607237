//! The Noise XX handshake as a state machine.

use vstd::prelude::*;
use vstd::utf8::{encode_utf8, is_ascii_chars_encode_utf8};

use crate::bytes::{all_bytes, array_12, array_32, concat_bytes, copy_bytes, is_all};
use crate::noise_encryption::agreement::{
    lemma_delivery, open_agrees, other_role, paired, reachable, read_agrees, sends_acceptable_keys,
    writes_next,
};
use crate::noise_encryption::cipher::{Cipher, NoiseCipherState};
use crate::primitives::{
    chacha_open, chacha_opened, chacha_returns, chacha_seal, chacha_sealed, chacha_takes,
    hkdf_sha256, hkdf_sha256_okm, random_secret, sha256, sha256_digest, x25519_diffie_hellman,
    x25519_public, x25519_public_key, x25519_shared, CHACHA_MAX_PLAINTEXT,
};

verus! {

/// Why a Noise operation failed.
#[derive(Debug, Clone, PartialEq, Eq, Structural)]
pub enum NoiseError {
    InvalidHandshakeState,
    InvalidMessage,
    DecryptionFailed,
    EncryptionFailed,
    InvalidPublicKey,
    SessionNotEstablished,
    RateLimitExceeded,
    MessageTooLarge,
}

/// Which side of a handshake a peer is.
#[derive(Debug, Clone, Copy, PartialEq, Eq, Structural)]
pub enum NoiseRole {
    Initiator,
    Responder,
}

/// The handshake patterns that are supported.
#[derive(Debug, Clone, Copy, PartialEq, Eq, Structural)]
pub enum HandshakePattern {
    XX,
}

/// The state of one side of a handshake, as a mathematical value.
pub struct Handshake {
    pub role: NoiseRole,
    /// How many of the three messages were written or read.
    pub step: u8,
    pub local_static: Seq<u8>,
    pub local_ephemeral: Option<Seq<u8>>,
    pub remote_static: Option<Seq<u8>>,
    pub remote_ephemeral: Option<Seq<u8>>,
    /// The hash of the transcript.
    pub h: Seq<u8>,
    /// The chaining key.
    pub ck: Seq<u8>,
    /// The current encryption key.
    pub k: Option<Seq<u8>>,
}

/// The state of one side of a handshake.
pub struct NoiseHandshakeState {
    pattern: HandshakePattern,
    role: NoiseRole,
    step: u8,
    local_static: [u8; 32],
    local_ephemeral: Option<[u8; 32]>,
    remote_static: Option<[u8; 32]>,
    remote_ephemeral: Option<[u8; 32]>,
    h: [u8; 32],
    ck: [u8; 32],
    k: Option<[u8; 32]>,
}

/// An optional key as a sequence of bytes.
pub open spec fn key_view(key: Option<[u8; 32]>) -> Option<Seq<u8>> {
    match key {
        Some(bytes) => Some(bytes@),
        None => None,
    }
}

/// A result that carries bytes, with the bytes as a sequence.
pub open spec fn bytes_view<E>(r: Result<Vec<u8>, E>) -> Result<Seq<u8>, E> {
    match r {
        Ok(v) => Ok(v@),
        Err(e) => Err(e),
    }
}

/// The protocol name.
pub open spec fn protocol_name() -> Seq<u8> {
    encode_utf8("Noise_XX_25519_ChaChaPoly_SHA256"@)
}

/// The protocol name is exactly as long as a digest, so that it needs neither padding nor hashing.
proof fn lemma_protocol_name()
    ensures
        protocol_name().len() == 32,
{
    reveal_strlit("Noise_XX_25519_ChaChaPoly_SHA256");
    is_ascii_chars_encode_utf8("Noise_XX_25519_ChaChaPoly_SHA256"@);
}

/// A side that has neither sent nor received anything.
pub open spec fn initial(role: NoiseRole, local_static: Seq<u8>) -> Handshake {
    Handshake {
        role,
        step: 0,
        local_static,
        local_ephemeral: None,
        remote_static: None,
        remote_ephemeral: None,
        h: protocol_name(),
        ck: protocol_name(),
        k: None,
    }
}

/// A public key that is accepted: 32 bytes that are neither all zero nor all one bits.
pub open spec fn acceptable_key(key: Seq<u8>) -> bool {
    key.len() == 32 && !all_bytes(key, 0x00) && !all_bytes(key, 0xFF)
}

/// The transcript hash takes in `data`.
pub open spec fn mix_hash(s: Handshake, data: Seq<u8>) -> Handshake {
    Handshake { h: sha256_digest(s.h + data), ..s }
}

/// The chaining key takes in `ikm` and yields a new encryption key.
pub open spec fn mix_key(s: Handshake, ikm: Seq<u8>) -> Handshake {
    let okm = hkdf_sha256_okm(s.ck, ikm, Seq::<u8>::empty(), 64);
    Handshake { ck: okm.subrange(0, 32), k: Some(okm.subrange(32, 64)), ..s }
}

/// The nonce of a handshake encryption.
pub open spec fn handshake_nonce(s: Handshake) -> Seq<u8> {
    s.h.subrange(0, 12)
}

/// Encrypts under the current key, or sends in clear before there is one; either way the
/// transcript takes in what is sent.
pub open spec fn seal_step(s: Handshake, plaintext: Seq<u8>) -> (
    Result<Seq<u8>, NoiseError>,
    Handshake,
) {
    match s.k {
        Some(key) => if plaintext.len() <= CHACHA_MAX_PLAINTEXT {
            let c = chacha_sealed(key, handshake_nonce(s), plaintext);
            (Ok(c), mix_hash(s, c))
        } else {
            (Err(NoiseError::EncryptionFailed), s)
        },
        None => (Ok(plaintext), mix_hash(s, plaintext)),
    }
}

/// Decrypts under the current key, or takes what came in clear before there is one; the transcript
/// takes in what was received unless it was refused.
pub open spec fn open_step(s: Handshake, ciphertext: Seq<u8>) -> (
    Result<Seq<u8>, NoiseError>,
    Handshake,
) {
    match s.k {
        Some(key) => match chacha_opened(key, handshake_nonce(s), ciphertext) {
            Some(p) => (Ok(p), mix_hash(s, ciphertext)),
            None => (Err(NoiseError::DecryptionFailed), s),
        },
        None => (Ok(ciphertext), mix_hash(s, ciphertext)),
    }
}

/// The key agreement of `secret` with a public key, if both are there.
pub open spec fn mix_shared(
    s: Handshake,
    secret: Option<Seq<u8>>,
    public: Option<Seq<u8>>,
) -> Handshake {
    match (secret, public) {
        (Some(a), Some(b)) => mix_key(s, x25519_shared(a, b)),
        _ => s,
    }
}

/// One message further.
pub open spec fn advance(s: Handshake) -> Handshake {
    Handshake { step: (s.step + 1) as u8, ..s }
}

/// The message that a side writes with the fresh secret `ephemeral`, and its state afterwards.
pub open spec fn write_step(s: Handshake, ephemeral: Seq<u8>) -> (
    Result<Seq<u8>, NoiseError>,
    Handshake,
) {
    let e = x25519_public(ephemeral);
    let with_e = Handshake { local_ephemeral: Some(ephemeral), ..mix_hash(s, e) };
    match (s.role, s.step) {
        // -> e
        (NoiseRole::Initiator, 0) => (Ok(e), advance(with_e)),
        // <- e, ee, s, es
        (NoiseRole::Responder, 1) => {
            let with_ee = mix_shared(with_e, Some(ephemeral), s.remote_ephemeral);
            match seal_step(with_ee, x25519_public(s.local_static)) {
                (Ok(c), with_s) => (
                    Ok(e + c),
                    advance(mix_shared(with_s, Some(s.local_static), s.remote_ephemeral)),
                ),
                (Err(error), with_s) => (Err(error), with_s),
            }
        },
        // -> s, se
        (NoiseRole::Initiator, 2) => match seal_step(s, x25519_public(s.local_static)) {
            (Ok(c), with_s) => (
                Ok(c),
                advance(mix_shared(with_s, s.local_ephemeral, s.remote_static)),
            ),
            (Err(error), with_s) => (Err(error), with_s),
        },
        _ => (Err(NoiseError::InvalidHandshakeState), s),
    }
}

/// The initiator's state once it has taken in the responder's ephemeral key `e`.
pub open spec fn with_remote_ephemeral(s: Handshake, e: Seq<u8>) -> Handshake {
    mix_shared(
        Handshake { remote_ephemeral: Some(e), ..mix_hash(s, e) },
        s.local_ephemeral,
        Some(e),
    )
}

/// How long the message is that a side writes next, once its keys are those that the messages so
/// far have brought.
pub open spec fn message_length(s: Handshake) -> nat {
    match (s.role, s.step) {
        (NoiseRole::Initiator, 0) => 32,
        (NoiseRole::Responder, 1) => 80,
        _ => 48,
    }
}

/// What a side makes of the message `m`, and its state afterwards.
pub open spec fn read_step(s: Handshake, m: Seq<u8>) -> (Result<Seq<u8>, NoiseError>, Handshake) {
    match (s.role, s.step) {
        // -> e
        (NoiseRole::Responder, 0) => if m.len() != 32 {
            (Err(NoiseError::InvalidMessage), s)
        } else if !acceptable_key(m) {
            (Err(NoiseError::InvalidPublicKey), s)
        } else {
            (
                Ok(Seq::<u8>::empty()),
                advance(Handshake { remote_ephemeral: Some(m), ..mix_hash(s, m) }),
            )
        },
        // <- e, ee, s, es
        (NoiseRole::Initiator, 1) => if m.len() < 32 {
            (Err(NoiseError::InvalidMessage), s)
        } else if !acceptable_key(m.subrange(0, 32)) {
            (Err(NoiseError::InvalidPublicKey), s)
        } else {
            let with_ee = with_remote_ephemeral(s, m.subrange(0, 32));
            match open_step(with_ee, m.subrange(32, m.len() as int)) {
                (Ok(p), with_s) => if acceptable_key(p) {
                    (
                        Ok(Seq::<u8>::empty()),
                        advance(
                            mix_shared(
                                Handshake { remote_static: Some(p), ..with_s },
                                s.local_ephemeral,
                                Some(p),
                            ),
                        ),
                    )
                } else {
                    (Err(NoiseError::InvalidPublicKey), with_s)
                },
                (Err(error), with_s) => (Err(error), with_s),
            }
        },
        // -> s, se
        (NoiseRole::Responder, 2) => match open_step(s, m) {
            (Ok(p), with_s) => if acceptable_key(p) {
                (
                    Ok(Seq::<u8>::empty()),
                    advance(
                        mix_shared(
                            Handshake { remote_static: Some(p), ..with_s },
                            Some(s.local_static),
                            s.remote_ephemeral,
                        ),
                    ),
                )
            } else {
                (Err(NoiseError::InvalidPublicKey), with_s)
            },
            (Err(error), with_s) => (Err(error), with_s),
        },
        _ => (Err(NoiseError::InvalidHandshakeState), s),
    }
}

/// The ciphers for sending and for receiving that a complete handshake yields: the first half of
/// the key material is for what the initiator sends, the second for what the responder sends.
pub open spec fn split_ciphers(s: Handshake) -> Result<(Cipher, Cipher), NoiseError> {
    if s.step < 3 {
        Err(NoiseError::InvalidHandshakeState)
    } else {
        let okm = hkdf_sha256_okm(s.ck, Seq::<u8>::empty(), Seq::<u8>::empty(), 64);
        let k1 = Cipher { key: okm.subrange(0, 32), nonce: 0 };
        let k2 = Cipher { key: okm.subrange(32, 64), nonce: 0 };
        match s.role {
            NoiseRole::Initiator => Ok((k1, k2)),
            NoiseRole::Responder => Ok((k2, k1)),
        }
    }
}

/// Message lengths on which a side returns from reading: those on which the cipher does.
pub open spec fn read_returns(s: Handshake, len: nat) -> bool {
    &&& s.role == NoiseRole::Initiator && s.step == 1 ==> chacha_returns(len - 48)
    &&& s.role == NoiseRole::Responder && s.step == 2 ==> chacha_returns(len - 16)
}

impl View for NoiseHandshakeState {
    type V = Handshake;

    closed spec fn view(&self) -> Handshake {
        Handshake {
            role: self.role,
            step: self.step,
            local_static: self.local_static@,
            local_ephemeral: key_view(self.local_ephemeral),
            remote_static: key_view(self.remote_static),
            remote_ephemeral: key_view(self.remote_ephemeral),
            h: self.h@,
            ck: self.ck@,
            k: key_view(self.k),
        }
    }
}

impl NoiseHandshakeState {
    /// A handshake that has not begun.
    pub fn new(role: NoiseRole, pattern: HandshakePattern, local_static: [u8; 32]) -> (r: Self)
        ensures
            r@ == initial(role, local_static@),
            reachable(r@),
    {
        proof {
            lemma_protocol_name();
        }
        let name: [u8; 32] = array_32("Noise_XX_25519_ChaChaPoly_SHA256".as_bytes());
        NoiseHandshakeState {
            pattern,
            role,
            step: 0,
            local_static,
            local_ephemeral: None,
            remote_static: None,
            remote_ephemeral: None,
            h: name,
            ck: name,
            k: None,
        }
    }

    /// Validates a public key, to keep weak keys out.
    pub fn validate_public_key(key_bytes: &[u8]) -> (r: Result<[u8; 32], NoiseError>)
        ensures
            r is Ok <==> acceptable_key(key_bytes@),
            r matches Ok(key) ==> key@ == key_bytes@,
            r matches Err(e) ==> e == NoiseError::InvalidPublicKey,
    {
        if key_bytes.len() != 32 {
            return Err(NoiseError::InvalidPublicKey);
        }
        if is_all(key_bytes, 0x00) || is_all(key_bytes, 0xFF) {
            return Err(NoiseError::InvalidPublicKey);
        }
        Ok(array_32(key_bytes))
    }

    /// Mixes data into the transcript hash.
    fn mix_hash(&mut self, data: &[u8])
        ensures
            final(self)@ == mix_hash(old(self)@, data@),
    {
        let joined: Vec<u8> = concat_bytes(&self.h, data);
        self.h = sha256(&joined);
    }

    /// Mixes key material into the chaining key and derives the next encryption key.
    fn mix_key(&mut self, ikm: &[u8])
        ensures
            final(self)@ == mix_key(old(self)@, ikm@),
    {
        let none: [u8; 0] = [];
        assert(none@ =~= Seq::<u8>::empty());
        let output: Vec<u8> = hkdf_sha256(&self.ck, ikm, &none, 64);
        let (left, right) = output.as_slice().split_at(32);
        self.ck = array_32(left);
        self.k = Some(array_32(right));
        assert(left@ =~= output@.subrange(0, 32));
        assert(right@ =~= output@.subrange(32, 64));
    }

    /// The first twelve bytes of the transcript hash.
    fn nonce(&self) -> (r: [u8; 12])
        ensures
            r@ == handshake_nonce(self@),
    {
        let bytes: &[u8] = &self.h;
        let (left, _right) = bytes.split_at(12);
        array_12(left)
    }

    /// Encrypts and authenticates data.
    fn encrypt(&mut self, plaintext: &[u8]) -> (r: Result<Vec<u8>, NoiseError>)
        requires
            old(self)@.k is Some ==> chacha_returns(plaintext@.len() as int),
        ensures
            (bytes_view(r), final(self)@) == seal_step(old(self)@, plaintext@),
            r matches Ok(c) ==> c@.len() == plaintext@.len() + (if old(self)@.k is Some {
                16int
            } else {
                0int
            }),
    {
        match self.k {
            Some(key) => {
                let nonce: [u8; 12] = self.nonce();
                match chacha_seal(&key, &nonce, plaintext) {
                    Ok(ciphertext) => {
                        self.mix_hash(&ciphertext);
                        Ok(ciphertext)
                    },
                    Err(_) => Err(NoiseError::EncryptionFailed),
                }
            },
            None => {
                self.mix_hash(plaintext);
                Ok(copy_bytes(plaintext))
            },
        }
    }

    /// Decrypts and verifies data.
    fn decrypt(&mut self, ciphertext: &[u8]) -> (r: Result<Vec<u8>, NoiseError>)
        requires
            old(self)@.k is Some ==> chacha_returns(ciphertext@.len() - 16),
        ensures
            (bytes_view(r), final(self)@) == open_step(old(self)@, ciphertext@),
            old(self)@.k matches Some(key) ==> open_agrees(
                key,
                handshake_nonce(old(self)@),
                ciphertext@,
            ),
    {
        match self.k {
            Some(key) => {
                let nonce: [u8; 12] = self.nonce();
                match chacha_open(&key, &nonce, ciphertext) {
                    Ok(plaintext) => {
                        self.mix_hash(ciphertext);
                        Ok(plaintext)
                    },
                    Err(_) => Err(NoiseError::DecryptionFailed),
                }
            },
            None => {
                self.mix_hash(ciphertext);
                Ok(copy_bytes(ciphertext))
            },
        }
    }

    /// Writes the next message with the fresh secret `ephemeral`.
    pub fn write_message_with(&mut self, ephemeral: [u8; 32]) -> (r: Result<Vec<u8>, NoiseError>)
        ensures
            (bytes_view(r), final(self)@) == write_step(old(self)@, ephemeral@),
            r matches Ok(message) ==> message@.len() <= 80 && (reachable(old(self)@)
                ==> message@.len() == message_length(old(self)@)),
            r is Ok ==> sends_acceptable_keys(old(self)@, ephemeral@),
            r is Ok <==> writes_next(old(self)@.role, old(self)@.step),
            reachable(old(self)@) ==> reachable(final(self)@),
    {
        match (self.role, self.step) {
            // -> e
            (NoiseRole::Initiator, 0) => {
                let ephemeral_pub: [u8; 32] = x25519_public_key(&ephemeral);
                self.mix_hash(&ephemeral_pub);
                self.local_ephemeral = Some(ephemeral);
                self.step = self.step + 1;
                Ok(copy_bytes(&ephemeral_pub))
            },
            // <- e, ee, s, es
            (NoiseRole::Responder, 1) => {
                let ephemeral_pub: [u8; 32] = x25519_public_key(&ephemeral);
                self.mix_hash(&ephemeral_pub);
                self.local_ephemeral = Some(ephemeral);
                if let Some(remote_ephemeral) = self.remote_ephemeral {
                    let ee: [u8; 32] = x25519_diffie_hellman(&ephemeral, &remote_ephemeral);
                    self.mix_key(&ee);
                }
                let static_pub: [u8; 32] = x25519_public_key(&self.local_static);
                let encrypted_static: Vec<u8> = match self.encrypt(&static_pub) {
                    Ok(c) => c,
                    Err(error) => {
                        return Err(error);
                    },
                };
                let message: Vec<u8> = concat_bytes(&ephemeral_pub, &encrypted_static);
                if let Some(remote_ephemeral) = self.remote_ephemeral {
                    let es: [u8; 32] = x25519_diffie_hellman(&self.local_static, &remote_ephemeral);
                    self.mix_key(&es);
                }
                self.step = self.step + 1;
                Ok(message)
            },
            // -> s, se
            (NoiseRole::Initiator, 2) => {
                let static_pub: [u8; 32] = x25519_public_key(&self.local_static);
                let encrypted_static: Vec<u8> = match self.encrypt(&static_pub) {
                    Ok(c) => c,
                    Err(error) => {
                        return Err(error);
                    },
                };
                if let Some(remote_static) = self.remote_static {
                    if let Some(local_ephemeral) = self.local_ephemeral {
                        let se: [u8; 32] = x25519_diffie_hellman(&local_ephemeral, &remote_static);
                        self.mix_key(&se);
                    }
                }
                self.step = self.step + 1;
                Ok(encrypted_static)
            },
            _ => Err(NoiseError::InvalidHandshakeState),
        }
    }

    /// Writes the next message with a secret that was drawn for it.
    pub fn write_message(&mut self) -> (r: Result<Vec<u8>, NoiseError>)
        ensures
            exists|ephemeral: Seq<u8>|
                ephemeral.len() == 32 && (bytes_view(r), final(self)@) == #[trigger] write_step(
                    old(self)@,
                    ephemeral,
                ) && (r is Ok ==> sends_acceptable_keys(old(self)@, ephemeral)),
            r matches Ok(message) ==> message@.len() <= 80 && (reachable(old(self)@)
                ==> message@.len() == message_length(old(self)@)),
            r is Ok <==> writes_next(old(self)@.role, old(self)@.step),
            reachable(old(self)@) ==> reachable(final(self)@),
    {
        let ephemeral: [u8; 32] = random_secret();
        assert(ephemeral@.len() == 32);
        self.write_message_with(ephemeral)
    }

    fn read_parts(&mut self, message: &[u8]) -> (r: Result<Vec<u8>, NoiseError>)
        requires
            read_returns(old(self)@, message@.len()),
        ensures
            (bytes_view(r), final(self)@) == read_step(old(self)@, message@),
            read_agrees(old(self)@, message@),
    {
        match (self.role, self.step) {
            // -> e
            (NoiseRole::Responder, 0) => {
                if message.len() != 32 {
                    return Err(NoiseError::InvalidMessage);
                }
                match Self::validate_public_key(message) {
                    Ok(remote_ephemeral) => {
                        self.remote_ephemeral = Some(remote_ephemeral);
                        self.mix_hash(message);
                        self.step = self.step + 1;
                        Ok(Vec::new())
                    },
                    Err(error) => Err(error),
                }
            },
            // <- e, ee, s, es
            (NoiseRole::Initiator, 1) => {
                if message.len() < 32 {
                    return Err(NoiseError::InvalidMessage);
                }
                let (e, encrypted_static) = message.split_at(32);
                let remote_ephemeral: [u8; 32] = match Self::validate_public_key(e) {
                    Ok(key) => key,
                    Err(error) => {
                        return Err(error);
                    },
                };
                self.mix_hash(e);
                self.remote_ephemeral = Some(remote_ephemeral);
                if let Some(local_ephemeral) = self.local_ephemeral {
                    let ee: [u8; 32] = x25519_diffie_hellman(&local_ephemeral, &remote_ephemeral);
                    self.mix_key(&ee);
                }
                let static_bytes: Vec<u8> = match self.decrypt(encrypted_static) {
                    Ok(p) => p,
                    Err(error) => {
                        return Err(error);
                    },
                };
                let remote_static: [u8; 32] = match Self::validate_public_key(&static_bytes) {
                    Ok(key) => key,
                    Err(error) => {
                        return Err(error);
                    },
                };
                self.remote_static = Some(remote_static);
                if let Some(local_ephemeral) = self.local_ephemeral {
                    let es: [u8; 32] = x25519_diffie_hellman(&local_ephemeral, &remote_static);
                    self.mix_key(&es);
                }
                self.step = self.step + 1;
                Ok(Vec::new())
            },
            // -> s, se
            (NoiseRole::Responder, 2) => {
                let static_bytes: Vec<u8> = match self.decrypt(message) {
                    Ok(p) => p,
                    Err(error) => {
                        return Err(error);
                    },
                };
                let remote_static: [u8; 32] = match Self::validate_public_key(&static_bytes) {
                    Ok(key) => key,
                    Err(error) => {
                        return Err(error);
                    },
                };
                self.remote_static = Some(remote_static);
                if let Some(remote_ephemeral) = self.remote_ephemeral {
                    let se: [u8; 32] = x25519_diffie_hellman(&self.local_static, &remote_ephemeral);
                    self.mix_key(&se);
                }
                self.step = self.step + 1;
                Ok(Vec::new())
            },
            _ => Err(NoiseError::InvalidHandshakeState),
        }
    }

    /// Whether a message of `len` bytes can be read.
    pub fn can_read(&self, len: usize) -> (r: bool)
        ensures
            r == read_returns(self@, len as nat),
    {
        match (self.role, self.step) {
            (NoiseRole::Initiator, 1) => {
                if len < 32 {
                    true
                } else {
                    chacha_takes(len - 32, true)
                }
            },
            (NoiseRole::Responder, 2) => chacha_takes(len, true),
            _ => true,
        }
    }

    /// Reads the other side's next message. One that arrives as the other side of the same
    /// handshake wrote it is accepted, and afterwards the two sides are in step again.
    pub fn read_message(&mut self, message: &[u8]) -> (r: Result<Vec<u8>, NoiseError>)
        requires
            read_returns(old(self)@, message@.len()),
        ensures
            (bytes_view(r), final(self)@) == read_step(old(self)@, message@),
            forall|w: Handshake, e: Seq<u8>|
                paired(w, old(self)@) && e.len() == 32 && sends_acceptable_keys(w, e) && (
                #[trigger] write_step(w, e)).0 == Ok::<Seq<u8>, NoiseError>(message@) ==> bytes_view(
                    r,
                ) == Ok::<Seq<u8>, NoiseError>(Seq::empty()) && paired(
                    write_step(w, e).1,
                    final(self)@,
                ),
            r is Ok ==> writes_next(other_role(old(self)@.role), old(self)@.step),
            r matches Ok(payload) ==> payload@.len() == 0,
            reachable(old(self)@) ==> reachable(final(self)@),
    {
        let ghost before = self@;
        let r: Result<Vec<u8>, NoiseError> = self.read_parts(message);
        proof {
            assert forall|w: Handshake, e: Seq<u8>|
                paired(w, before) && e.len() == 32 && sends_acceptable_keys(w, e) && (
                #[trigger] write_step(w, e)).0 == Ok::<Seq<u8>, NoiseError>(
                    message@,
                ) implies bytes_view(r) == Ok::<Seq<u8>, NoiseError>(Seq::empty()) && paired(
                write_step(w, e).1,
                self@,
            ) by {
                lemma_delivery(w, e, before);
            }
        }
        r
    }

    /// How many messages were exchanged.
    pub(crate) fn messages(&self) -> (r: u8)
        ensures
            r == self@.step,
    {
        self.step
    }

    /// Whether all three messages were exchanged.
    pub fn is_complete(&self) -> (r: bool)
        ensures
            r == (self@.step >= 3),
    {
        self.step >= 3
    }

    /// The ciphers for sending and for receiving.
    pub fn split(self) -> (r: Result<(NoiseCipherState, NoiseCipherState), NoiseError>)
        ensures
            match r {
                Ok((send, recv)) => split_ciphers(self@) == Ok::<(Cipher, Cipher), NoiseError>(
                    (send@, recv@),
                ),
                Err(e) => split_ciphers(self@) == Err::<(Cipher, Cipher), NoiseError>(e),
            },
    {
        if !self.is_complete() {
            return Err(NoiseError::InvalidHandshakeState);
        }
        let none: [u8; 0] = [];
        assert(none@ =~= Seq::<u8>::empty());
        let output: Vec<u8> = hkdf_sha256(&self.ck, &none, &none, 64);
        let (left, right) = output.as_slice().split_at(32);
        assert(left@ =~= output@.subrange(0, 32));
        assert(right@ =~= output@.subrange(32, 64));
        let k1: [u8; 32] = array_32(left);
        let k2: [u8; 32] = array_32(right);
        let (send_key, recv_key) = match self.role {
            NoiseRole::Initiator => (k1, k2),
            NoiseRole::Responder => (k2, k1),
        };
        Ok((NoiseCipherState::new(send_key), NoiseCipherState::new(recv_key)))
    }

    /// The static public key of the other side, once it was received.
    pub fn get_remote_static(&self) -> (r: Option<[u8; 32]>)
        ensures
            key_view(r) == self@.remote_static,
    {
        self.remote_static
    }
}

} // verus!
