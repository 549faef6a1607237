//! A session with one peer: the handshake, then the ciphers that it leaves behind.

use vstd::prelude::*;

use crate::bytes::hex_lower;
use crate::clock::{elapsed, elapsed_between, Clock, SECOND};
use crate::noise_encryption::agreement::{
    handshake_stays_reachable, paired, reachable, sends_acceptable_keys,
};
use crate::noise_encryption::cipher::{
    cipher_open, cipher_seal, message_nonce, Cipher, NoiseCipherState,
};
use crate::noise_encryption::handshake::{
    acceptable_key, bytes_view, initial, key_view, message_length, read_returns, read_step,
    split_ciphers, write_step, Handshake, HandshakePattern, NoiseError, NoiseHandshakeState,
    NoiseRole,
};
use crate::primitives::{
    chacha_returns, chacha_sealed, chacha_takes, hex_encode, random_secret, sha256, sha256_digest,
    x25519_public, CHACHA_MAX_PLAINTEXT,
};

verus! {

/// How long a session may be idle, in seconds.
pub const REKEY_SECONDS: u128 = 1800;

/// How many messages a session may send.
pub const REKEY_MESSAGES: u64 = 900_000;

/// A session with one peer, as a mathematical value.
pub struct Session {
    pub peer_id: Seq<char>,
    pub role: NoiseRole,
    /// The handshake, until it is complete.
    pub handshake: Option<Handshake>,
    pub send: Option<Cipher>,
    pub recv: Option<Cipher>,
    pub remote_static_key: Option<Seq<u8>>,
    /// In nanoseconds, on the session's clock.
    pub last_activity: u128,
    /// The number of messages sent.
    pub message_count: u64,
    pub established: bool,
}

/// A session with one peer.
pub struct NoiseSession {
    peer_id: String,
    role: NoiseRole,
    handshake_state: Option<NoiseHandshakeState>,
    send_cipher: Option<NoiseCipherState>,
    recv_cipher: Option<NoiseCipherState>,
    remote_static_key: Option<[u8; 32]>,
    clock: Clock,
    last_activity: u128,
    message_count: u64,
    established: bool,
}

/// An optional cipher as a mathematical value.
pub open spec fn cipher_view(cipher: Option<NoiseCipherState>) -> Option<Cipher> {
    match cipher {
        Some(c) => Some(c@),
        None => None,
    }
}

impl View for NoiseSession {
    type V = Session;

    closed spec fn view(&self) -> Session {
        Session {
            peer_id: self.peer_id@,
            role: self.role,
            handshake: match self.handshake_state {
                Some(hs) => Some(hs@),
                None => None,
            },
            send: cipher_view(self.send_cipher),
            recv: cipher_view(self.recv_cipher),
            remote_static_key: key_view(self.remote_static_key),
            last_activity: self.last_activity,
            message_count: self.message_count,
            established: self.established,
        }
    }
}

/// A result that may carry bytes, with the bytes as a sequence.
pub open spec fn reply_view<E>(r: Result<Option<Vec<u8>>, E>) -> Result<Option<Seq<u8>>, E> {
    match r {
        Ok(Some(v)) => Ok(Some(v@)),
        Ok(None) => Ok(None),
        Err(e) => Err(e),
    }
}

/// A session in which nothing was sent or received.
pub open spec fn session_initial(
    peer_id: Seq<char>,
    role: NoiseRole,
    local_static: Seq<u8>,
    now: u128,
) -> Session {
    Session {
        peer_id,
        role,
        handshake: Some(initial(role, local_static)),
        send: None,
        recv: None,
        remote_static_key: None,
        last_activity: now,
        message_count: 0,
        established: false,
    }
}

/// Writing the next handshake message with the fresh secret `ephemeral` at the time `now`.
pub open spec fn start_step(s: Session, ephemeral: Seq<u8>, now: u128) -> (
    Result<Seq<u8>, NoiseError>,
    Session,
) {
    match s.handshake {
        Some(hs) => match write_step(hs, ephemeral) {
            (Ok(m), next) => (
                Ok(m),
                Session { handshake: Some(next), last_activity: now, ..s },
            ),
            (Err(error), next) => (Err(error), Session { handshake: Some(next), ..s }),
        },
        None => (Err(NoiseError::InvalidHandshakeState), s),
    }
}

/// A session whose handshake stands at `hs` and has just moved on: if that completes it, the
/// ciphers take its place.
pub open spec fn settle(s: Session, hs: Handshake) -> Session {
    match split_ciphers(hs) {
        Ok((send, recv)) => Session {
            handshake: None,
            send: Some(send),
            recv: Some(recv),
            remote_static_key: hs.remote_static,
            established: true,
            ..s
        },
        Err(_) => Session { handshake: Some(hs), ..s },
    }
}

/// Reading the handshake message `m` at the time `now`. A responder that reading leaves before the
/// last message would answer at once, with the fresh secret `ephemeral`; as it is, reading leaves a
/// responder before the second message or after the last, and the answer is for `start_step`.
pub open spec fn process_step(s: Session, m: Seq<u8>, ephemeral: Seq<u8>, now: u128) -> (
    Result<Option<Seq<u8>>, NoiseError>,
    Session,
) {
    match s.handshake {
        Some(hs) => match read_step(hs, m) {
            (Ok(_), next) => {
                let active = Session { last_activity: now, ..s };
                if s.role == NoiseRole::Responder && next.step == 2 {
                    match write_step(next, ephemeral) {
                        (Ok(reply), last) => (Ok(Some(reply)), settle(active, last)),
                        (Err(error), last) => (
                            Err(error),
                            Session { handshake: Some(last), ..active },
                        ),
                    }
                } else {
                    (Ok(None), settle(active, next))
                }
            },
            (Err(error), next) => (Err(error), Session { handshake: Some(next), ..s }),
        },
        None => (Err(NoiseError::InvalidHandshakeState), s),
    }
}

/// The session `s` is the other end of the handshake `w`: their handshakes are paired, or `s` has
/// completed its own and its ciphers are those of `w` in the other direction.
pub open spec fn joined(w: Handshake, s: Session) -> bool {
    match s.handshake {
        Some(hs) => paired(w, hs),
        None => {
            &&& s.established
            &&& split_ciphers(w) is Ok
            &&& s.send == Some(split_ciphers(w)->Ok_0.1)
            &&& s.recv == Some(split_ciphers(w)->Ok_0.0)
            &&& s.remote_static_key == Some(x25519_public(w.local_static))
        },
    }
}

/// `message` is what the handshake `w`, the other end of the session `s`, writes next with
/// `ephemeral`, and the keys that it sends are acceptable.
pub open spec fn is_due(w: Handshake, ephemeral: Seq<u8>, s: Session, message: Seq<u8>) -> bool {
    &&& session_valid(s)
    &&& s.handshake is Some
    &&& paired(w, s.handshake->0)
    &&& ephemeral.len() == 32
    &&& sends_acceptable_keys(w, ephemeral)
    &&& write_step(w, ephemeral).0 == Ok::<Seq<u8>, NoiseError>(message)
}

/// Encrypting a message at the time `now`.
pub open spec fn session_seal(s: Session, plaintext: Seq<u8>, now: u128) -> (
    Result<Seq<u8>, NoiseError>,
    Session,
) {
    match s.send {
        Some(cipher) => match cipher_seal(cipher, plaintext) {
            (Ok(c), next) => (
                Ok(c),
                Session {
                    send: Some(next),
                    last_activity: now,
                    message_count: (s.message_count + 1) as u64,
                    ..s
                },
            ),
            (Err(error), next) => (Err(error), Session { send: Some(next), ..s }),
        },
        None => (Err(NoiseError::SessionNotEstablished), s),
    }
}

/// Decrypting a message at the time `now`.
pub open spec fn session_open(s: Session, ciphertext: Seq<u8>, now: u128) -> (
    Result<Seq<u8>, NoiseError>,
    Session,
) {
    match s.recv {
        Some(cipher) => match cipher_open(cipher, ciphertext) {
            (Ok(p), next) => (Ok(p), Session { recv: Some(next), last_activity: now, ..s }),
            (Err(error), next) => (Err(error), Session { recv: Some(next), ..s }),
        },
        None => (Err(NoiseError::SessionNotEstablished), s),
    }
}

/// Whether a session has been idle for too long or has sent too many messages.
pub open spec fn needs_rekey(s: Session, now: u128) -> bool {
    elapsed(s.last_activity, now) > REKEY_SECONDS * SECOND || s.message_count >= REKEY_MESSAGES
}

/// The fingerprint of a key: the first half of its digest, in hexadecimal.
pub open spec fn fingerprint(key: Seq<u8>) -> Seq<char> {
    hex_lower(sha256_digest(key).subrange(0, 16))
}

/// The counters of a session leave room for one more message to be sent.
pub open spec fn can_send(s: Session) -> bool {
    &&& s.message_count < u64::MAX
    &&& s.send is Some ==> s.send->0.nonce < u64::MAX
}

/// The counters of a session leave room for one more message to be received.
pub open spec fn can_receive(s: Session) -> bool {
    s.recv is Some ==> s.recv->0.nonce < u64::MAX
}

/// Message lengths on which a session returns from processing a handshake message.
pub open spec fn process_returns(s: Session, len: nat) -> bool {
    s.handshake is Some ==> read_returns(s.handshake->0, len)
}

/// The fingerprint of a key.
pub(crate) fn key_fingerprint(key: &[u8]) -> (r: String)
    ensures
        r@ == fingerprint(key@),
        r@.len() == 32,
{
    let hash: [u8; 32] = sha256(key);
    let bytes: &[u8] = &hash;
    let (left, _right) = bytes.split_at(16);
    assert(left@ =~= sha256_digest(key@).subrange(0, 16));
    hex_encode(left)
}

impl NoiseSession {
    /// A session that counts its time on `clock`.
    pub(crate) fn with_clock(
        peer_id: String,
        role: NoiseRole,
        local_static: [u8; 32],
        clock: Clock,
        now: u128,
    ) -> (r: Self)
        ensures
            r@ == session_initial(peer_id@, role, local_static@, now),
    {
        NoiseSession {
            peer_id,
            role,
            handshake_state: Some(
                NoiseHandshakeState::new(role, HandshakePattern::XX, local_static),
            ),
            send_cipher: None,
            recv_cipher: None,
            remote_static_key: None,
            clock,
            last_activity: now,
            message_count: 0,
            established: false,
        }
    }

    /// A session in which nothing was sent or received.
    pub fn new(peer_id: String, role: NoiseRole, local_static: [u8; 32]) -> (r: Self)
        ensures
            exists|now: u128|
                r@ == #[trigger] session_initial(peer_id@, role, local_static@, now),
            session_valid(r@),
    {
        let clock: Clock = Clock::start();
        let now: u128 = clock.read();
        Self::with_clock(peer_id, role, local_static, clock, now)
    }

    /// Writes the next handshake message with the fresh secret `ephemeral` at the time `now`.
    pub fn start_handshake_with(&mut self, ephemeral: [u8; 32], now: u128) -> (r: Result<
        Vec<u8>,
        NoiseError,
    >)
        ensures
            (bytes_view(r), final(self)@) == start_step(old(self)@, ephemeral@, now),
            r matches Ok(message) ==> message@.len() <= 80 && (session_valid(old(self)@)
                ==> message@.len() == message_length(old(self)@.handshake->0)),
            r is Ok ==> sends_acceptable_keys(old(self)@.handshake->0, ephemeral@),
            session_valid(old(self)@) ==> session_valid(final(self)@),
    {
        proof {
            if session_valid(self@) {
                sessions_stay_valid(self@, Seq::empty(), ephemeral@, now);
            }
        }
        match &mut self.handshake_state {
            Some(hs) => match hs.write_message_with(ephemeral) {
                Ok(message) => {
                    self.last_activity = now;
                    Ok(message)
                },
                Err(error) => Err(error),
            },
            None => Err(NoiseError::InvalidHandshakeState),
        }
    }

    /// Writes the next handshake message.
    pub fn start_handshake(&mut self) -> (r: Result<Vec<u8>, NoiseError>)
        ensures
            exists|ephemeral: Seq<u8>, now: u128|
                ephemeral.len() == 32 && (bytes_view(r), final(self)@) == #[trigger] start_step(
                    old(self)@,
                    ephemeral,
                    now,
                ) && (r is Ok ==> sends_acceptable_keys(old(self)@.handshake->0, ephemeral)),
            r matches Ok(message) ==> message@.len() <= 80 && (session_valid(old(self)@)
                ==> message@.len() == message_length(old(self)@.handshake->0)),
            session_valid(old(self)@) ==> session_valid(final(self)@),
    {
        let ephemeral: [u8; 32] = random_secret();
        let now: u128 = self.clock.read();
        assert(ephemeral@.len() == 32);
        self.start_handshake_with(ephemeral, now)
    }

    /// Reads a handshake message at the time `now`; where it has to be answered, the answer is
    /// written with the fresh secret `ephemeral`. A message that arrives as the other end wrote it
    /// is accepted; if it is the last one, the session ends up with the other end's ciphers.
    pub fn process_handshake_message_with(
        &mut self,
        message: &[u8],
        ephemeral: [u8; 32],
        now: u128,
    ) -> (r: Result<Option<Vec<u8>>, NoiseError>)
        requires
            process_returns(old(self)@, message@.len()),
        ensures
            (reply_view(r), final(self)@) == process_step(old(self)@, message@, ephemeral@, now),
            forall|w: Handshake, e: Seq<u8>| #[trigger]
                is_due(w, e, old(self)@, message@) ==> r is Ok && joined(
                    write_step(w, e).1,
                    final(self)@,
                ),
            r is Err ==> final(self)@.established == old(self)@.established,
            session_valid(old(self)@) ==> session_valid(final(self)@),
    {
        proof {
            if session_valid(self@) {
                sessions_stay_valid(self@, message@, ephemeral@, now);
            }
        }
        let mut response: Option<Vec<u8>> = None;
        match &mut self.handshake_state {
            Some(hs) => {
                match hs.read_message(message) {
                    Ok(_) => {},
                    Err(error) => {
                        return Err(error);
                    },
                }
                self.last_activity = now;
                if !hs.is_complete() && self.role == NoiseRole::Responder && hs.messages() == 2 {
                    match hs.write_message_with(ephemeral) {
                        Ok(reply) => {
                            response = Some(reply);
                        },
                        Err(error) => {
                            return Err(error);
                        },
                    }
                }
            },
            None => {
                return Err(NoiseError::InvalidHandshakeState);
            },
        }
        match self.handshake_state.take() {
            Some(hs) => {
                if hs.is_complete() {
                    let remote_static: Option<[u8; 32]> = hs.get_remote_static();
                    match hs.split() {
                        Ok((send_cipher, recv_cipher)) => {
                            self.remote_static_key = remote_static;
                            self.send_cipher = Some(send_cipher);
                            self.recv_cipher = Some(recv_cipher);
                            self.established = true;
                        },
                        Err(error) => {
                            return Err(error);
                        },
                    }
                } else {
                    self.handshake_state = Some(hs);
                }
            },
            None => {},
        }
        Ok(response)
    }

    /// Reads a handshake message. One that arrives as the other end wrote it is accepted; if it is
    /// the last one, the session ends up with the other end's ciphers.
    pub fn process_handshake_message(&mut self, message: &[u8]) -> (r: Result<
        Option<Vec<u8>>,
        NoiseError,
    >)
        requires
            process_returns(old(self)@, message@.len()),
        ensures
            exists|ephemeral: Seq<u8>, now: u128|
                ephemeral.len() == 32 && (reply_view(r), final(self)@) == #[trigger] process_step(
                    old(self)@,
                    message@,
                    ephemeral,
                    now,
                ),
            forall|w: Handshake, e: Seq<u8>| #[trigger]
                is_due(w, e, old(self)@, message@) ==> r is Ok && joined(
                    write_step(w, e).1,
                    final(self)@,
                ),
            r is Err ==> final(self)@.established == old(self)@.established,
            session_valid(old(self)@) ==> session_valid(final(self)@),
    {
        let ephemeral: [u8; 32] = random_secret();
        let now: u128 = self.clock.read();
        assert(ephemeral@.len() == 32);
        self.process_handshake_message_with(message, ephemeral, now)
    }

    /// Encrypts application data at the time `now`.
    pub fn encrypt_at(&mut self, plaintext: &[u8], now: u128) -> (r: Result<Vec<u8>, NoiseError>)
        requires
            can_send(old(self)@),
            old(self)@.send is Some ==> chacha_returns(plaintext@.len() as int),
        ensures
            (bytes_view(r), final(self)@) == session_seal(old(self)@, plaintext@, now),
            r matches Ok(c) ==> c@.len() == plaintext@.len() + 16,
            session_valid(old(self)@) ==> session_valid(final(self)@),
    {
        proof {
            if session_valid(self@) {
                sessions_stay_valid(self@, plaintext@, Seq::empty(), now);
            }
        }
        match &mut self.send_cipher {
            Some(cipher) => match cipher.encrypt(plaintext) {
                Ok(ciphertext) => {
                    self.last_activity = now;
                    self.message_count = self.message_count + 1;
                    Ok(ciphertext)
                },
                Err(error) => Err(error),
            },
            None => Err(NoiseError::SessionNotEstablished),
        }
    }

    /// Encrypts application data.
    pub fn encrypt(&mut self, plaintext: &[u8]) -> (r: Result<Vec<u8>, NoiseError>)
        requires
            can_send(old(self)@),
            old(self)@.send is Some ==> chacha_returns(plaintext@.len() as int),
        ensures
            exists|now: u128|
                (bytes_view(r), final(self)@) == #[trigger] session_seal(
                    old(self)@,
                    plaintext@,
                    now,
                ),
            r matches Ok(c) ==> c@.len() == plaintext@.len() + 16,
            session_valid(old(self)@) ==> session_valid(final(self)@),
    {
        let now: u128 = self.clock.read();
        self.encrypt_at(plaintext, now)
    }

    /// Decrypts application data at the time `now`. What a session sealed whose sending cipher is
    /// this one's receiving cipher comes out as it went in, and the two ciphers stay alike; nothing
    /// else is accepted.
    pub fn decrypt_at(&mut self, ciphertext: &[u8], now: u128) -> (r: Result<Vec<u8>, NoiseError>)
        requires
            can_receive(old(self)@),
            old(self)@.recv is Some ==> chacha_returns(ciphertext@.len() - 16),
        ensures
            (bytes_view(r), final(self)@) == session_open(old(self)@, ciphertext@, now),
            forall|peer: Session, p: Seq<u8>, t: u128|
                peer.send == old(self)@.recv && (#[trigger] session_seal(peer, p, t)).0 == Ok::<
                    Seq<u8>,
                    NoiseError,
                >(ciphertext@) ==> bytes_view(r) == Ok::<Seq<u8>, NoiseError>(p)
                    && final(self)@.recv == session_seal(peer, p, t).1.send,
            r matches Ok(p) ==> old(self)@.recv is Some && cipher_seal(
                old(self)@.recv->0,
                p@,
            ).0 == Ok::<Seq<u8>, NoiseError>(ciphertext@),
            old(self)@.recv matches Some(c) ==> forall|p: Seq<u8>|
                p.len() <= CHACHA_MAX_PLAINTEXT && ciphertext@ == #[trigger] chacha_sealed(
                    c.key,
                    message_nonce(c.nonce),
                    p,
                ) ==> bytes_view(r) == Ok::<Seq<u8>, NoiseError>(p),
            session_valid(old(self)@) ==> session_valid(final(self)@),
    {
        proof {
            if session_valid(self@) {
                sessions_stay_valid(self@, ciphertext@, Seq::empty(), now);
            }
        }
        match &mut self.recv_cipher {
            Some(cipher) => match cipher.decrypt(ciphertext) {
                Ok(plaintext) => {
                    self.last_activity = now;
                    Ok(plaintext)
                },
                Err(error) => Err(error),
            },
            None => Err(NoiseError::SessionNotEstablished),
        }
    }

    /// Decrypts application data. What a session sealed whose sending cipher is this one's
    /// receiving cipher comes out as it went in, and the two ciphers stay alike; nothing else is
    /// accepted.
    pub fn decrypt(&mut self, ciphertext: &[u8]) -> (r: Result<Vec<u8>, NoiseError>)
        requires
            can_receive(old(self)@),
            old(self)@.recv is Some ==> chacha_returns(ciphertext@.len() - 16),
        ensures
            exists|now: u128|
                (bytes_view(r), final(self)@) == #[trigger] session_open(
                    old(self)@,
                    ciphertext@,
                    now,
                ),
            forall|peer: Session, p: Seq<u8>, t: u128|
                peer.send == old(self)@.recv && (#[trigger] session_seal(peer, p, t)).0 == Ok::<
                    Seq<u8>,
                    NoiseError,
                >(ciphertext@) ==> bytes_view(r) == Ok::<Seq<u8>, NoiseError>(p)
                    && final(self)@.recv == session_seal(peer, p, t).1.send,
            r matches Ok(p) ==> old(self)@.recv is Some && cipher_seal(
                old(self)@.recv->0,
                p@,
            ).0 == Ok::<Seq<u8>, NoiseError>(ciphertext@),
            old(self)@.recv matches Some(c) ==> forall|p: Seq<u8>|
                p.len() <= CHACHA_MAX_PLAINTEXT && ciphertext@ == #[trigger] chacha_sealed(
                    c.key,
                    message_nonce(c.nonce),
                    p,
                ) ==> bytes_view(r) == Ok::<Seq<u8>, NoiseError>(p),
            session_valid(old(self)@) ==> session_valid(final(self)@),
    {
        let now: u128 = self.clock.read();
        self.decrypt_at(ciphertext, now)
    }

    /// Whether the session can take one more message of `len` bytes to encrypt.
    pub fn takes_outgoing(&self, len: usize) -> (r: bool)
        ensures
            r == (can_send(self@) && (self@.send is Some ==> chacha_returns(len as int))),
    {
        match &self.send_cipher {
            Some(cipher) => self.message_count < u64::MAX && cipher.has_room() && chacha_takes(
                len,
                false,
            ),
            None => self.message_count < u64::MAX,
        }
    }

    /// Whether the session can take one more message of `len` bytes to decrypt.
    pub fn takes_incoming(&self, len: usize) -> (r: bool)
        ensures
            r == (can_receive(self@) && (self@.recv is Some ==> chacha_returns(len - 16))),
    {
        match &self.recv_cipher {
            Some(cipher) => cipher.has_room() && chacha_takes(len, true),
            None => true,
        }
    }

    /// Whether the session can take a handshake message of `len` bytes.
    pub fn takes_handshake(&self, len: usize) -> (r: bool)
        ensures
            r == process_returns(self@, len as nat),
    {
        match &self.handshake_state {
            Some(hs) => hs.can_read(len),
            None => true,
        }
    }

    /// Whether the session is established.
    pub fn is_established(&self) -> (r: bool)
        ensures
            r == self@.established,
    {
        self.established
    }

    /// The time on the session's clock.
    pub(crate) fn now(&self) -> u128 {
        self.clock.read()
    }

    /// Whether the session needs rekeying at the time `now`.
    pub fn needs_rekeying_at(&self, now: u128) -> (r: bool)
        ensures
            r == needs_rekey(self@, now),
    {
        let time_expired: bool = elapsed_between(self.last_activity, now) > REKEY_SECONDS * SECOND;
        let message_limit: bool = self.message_count >= REKEY_MESSAGES;
        time_expired || message_limit
    }

    /// Whether the session needs rekeying.
    pub fn needs_rekeying(&self) -> (r: bool)
        ensures
            exists|now: u128| r == #[trigger] needs_rekey(self@, now),
    {
        let now: u128 = self.clock.read();
        self.needs_rekeying_at(now)
    }

    /// The static public key of the peer, once the session is established.
    pub fn get_remote_static_key(&self) -> (r: Option<[u8; 32]>)
        ensures
            key_view(r) == self@.remote_static_key,
    {
        self.remote_static_key
    }

    /// The fingerprint of the peer's static key.
    pub fn get_remote_fingerprint(&self) -> (r: Option<String>)
        ensures
            match self@.remote_static_key {
                Some(key) => r matches Some(text) && text@ == fingerprint(key) && text@.len() == 32,
                None => r is None,
            },
    {
        match &self.remote_static_key {
            Some(key) => Some(key_fingerprint(key)),
            None => None,
        }
    }
}

/// What holds of every session: while the handshake runs there are no ciphers, and once it has
/// given way to them the session is established, knows the peer's static key, and has sent as many
/// messages as its sending cipher has counted.
pub open spec fn session_valid(s: Session) -> bool {
    match s.handshake {
        Some(hs) => {
            &&& hs.role == s.role
            &&& reachable(hs)
            &&& !s.established
            &&& s.send is None
            &&& s.recv is None
            &&& s.remote_static_key is None
            &&& s.message_count == 0
        },
        None => {
            &&& s.established
            &&& s.send is Some
            &&& s.recv is Some
            &&& s.remote_static_key is Some
            &&& acceptable_key(s.remote_static_key->0)
            &&& s.message_count == s.send->0.nonce
        },
    }
}

/// A new session is valid.
pub proof fn new_sessions_are_valid(
    peer_id: Seq<char>,
    role: NoiseRole,
    local_static: Seq<u8>,
    now: u128,
)
    ensures
        session_valid(session_initial(peer_id, role, local_static, now)),
{
}

/// Whatever is written, read, encrypted or decrypted, a session stays valid and keeps its peer and
/// its role.
pub proof fn sessions_stay_valid(s: Session, bytes: Seq<u8>, ephemeral: Seq<u8>, now: u128)
    requires
        session_valid(s),
    ensures
        session_valid(start_step(s, ephemeral, now).1),
        session_valid(process_step(s, bytes, ephemeral, now).1),
        can_send(s) ==> session_valid(session_seal(s, bytes, now).1),
        session_valid(session_open(s, bytes, now).1),
        start_step(s, ephemeral, now).1.peer_id == s.peer_id,
        process_step(s, bytes, ephemeral, now).1.peer_id == s.peer_id,
        session_seal(s, bytes, now).1.peer_id == s.peer_id,
        session_open(s, bytes, now).1.peer_id == s.peer_id,
        start_step(s, ephemeral, now).1.role == s.role,
        process_step(s, bytes, ephemeral, now).1.role == s.role,
        session_seal(s, bytes, now).1.role == s.role,
        session_open(s, bytes, now).1.role == s.role,
{
    if let Some(hs) = s.handshake {
        handshake_stays_reachable(hs, ephemeral, bytes);
    }
}

/// A session takes over the ciphers of its handshake by reading the message that completes it. What
/// does not complete the handshake, or is refused, leaves it unestablished.
pub proof fn reading_the_last_message_establishes(
    s: Session,
    bytes: Seq<u8>,
    ephemeral: Seq<u8>,
    now: u128,
)
    requires
        session_valid(s),
        !s.established,
    ensures
        process_step(s, bytes, ephemeral, now).1.established <==> read_step(
            s.handshake->0,
            bytes,
        ).0 is Ok && read_step(s.handshake->0, bytes).1.step == 3,
        !session_seal(s, bytes, now).1.established,
        !session_open(s, bytes, now).1.established,
{
}

/// A session has both ciphers and knows the peer's static key exactly when it is established.
pub proof fn established_sessions_are_complete(s: Session)
    requires
        session_valid(s),
    ensures
        s.established <==> s.handshake is None,
        s.established <==> s.send is Some,
        s.established <==> s.recv is Some,
        s.established <==> s.remote_static_key is Some,
{
}

/// Before a session is established it neither encrypts nor decrypts, and afterwards it takes no
/// more part in a handshake. Either way the refusal leaves it as it was.
pub proof fn sessions_refuse_what_is_not_due(
    s: Session,
    bytes: Seq<u8>,
    ephemeral: Seq<u8>,
    now: u128,
)
    requires
        session_valid(s),
    ensures
        !s.established ==> session_seal(s, bytes, now) == (
            Err::<Seq<u8>, NoiseError>(NoiseError::SessionNotEstablished),
            s,
        ),
        !s.established ==> session_open(s, bytes, now) == (
            Err::<Seq<u8>, NoiseError>(NoiseError::SessionNotEstablished),
            s,
        ),
        s.established ==> start_step(s, ephemeral, now) == (
            Err::<Seq<u8>, NoiseError>(NoiseError::InvalidHandshakeState),
            s,
        ),
        s.established ==> process_step(s, bytes, ephemeral, now) == (
            Err::<Option<Seq<u8>>, NoiseError>(NoiseError::InvalidHandshakeState),
            s,
        ),
{
}

/// A session that needs rekeying goes on needing it as time passes; and no session needs it
/// before half an hour has passed or 900,000 messages were sent.
pub proof fn rekeying_stays_due(s: Session, now: u128, later: u128)
    requires
        now <= later,
    ensures
        needs_rekey(s, now) ==> needs_rekey(s, later),
        now <= s.last_activity + 1800 * 1_000_000_000 && s.message_count < 900_000 ==> !needs_rekey(
            s,
            now,
        ),
{
}

} // verus!
