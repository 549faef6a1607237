//! The encryption service.

use vstd::prelude::*;
use vstd::utf8::encode_utf8;

use crate::bytes::{append_bytes, array_12, array_32, array_64, concat_bytes, copy_bytes};
use crate::encryption::laws::{
    a_key_is_all_it_takes, cleanups_stay_reachable, initial_services_are_reachable, is_key_data,
    key_data_is_accepted, lemma_exchange, peer_reachable, service_reachable, service_valid,
    services_stay_reachable,
};
use crate::encryption::model::{
    add_peer_step, agrees_with_owner, cleanup_step, combined_keys, decrypt_step, encrypt_step,
    handshake_step, handshake_with, has_key, initiate_step, keyed_open, keyed_seal, kept_identity,
    legacy_keys, legacy_open, legacy_seal, linked, longest_message, noise_can_process,
    noise_can_receive, noise_can_send, overhead, peer_fingerprint, reading_session, ready,
    retire_all, sealed_as, service_initial, signed_by, status, store_step, symmetric_key, type_of,
    uses_noise, with_type, EncryptionError, EncryptionType, Service,
};
use crate::noise_encryption::agreement::sends_acceptable_keys;
use crate::noise_encryption::cipher::message_nonce;
use crate::noise_encryption::handshake::{
    bytes_view, message_length, write_step, Handshake, NoiseRole,
};
use crate::noise_encryption::manager::{all_at, due_peers, sessions_initial, NoiseSessionManager};
use crate::noise_encryption::session::{is_due, joined, key_fingerprint, reply_view};
use crate::primitives::{
    aes_open, aes_seal, aes_sealed, chacha_sealed, ed25519_accepts, ed25519_decodes, ed25519_key_decodes,
    ed25519_public, ed25519_public_key, ed25519_sign, ed25519_signature, ed25519_verify_strict,
    hkdf_sha256, pbkdf2_hmac_sha256, pbkdf2_key, random_nonce, random_secret,
    random_secret_from_rng, random_signing_seed, x25519_diffie_hellman, x25519_public,
    x25519_public_key, CHACHA_MAX_PLAINTEXT,
};
use crate::table::Table;
use crate::text::texts;

verus! {

/// How many rounds the derivation of a channel key takes.
pub const CHANNEL_KEY_ROUNDS: u32 = 100_000;

/// Keys and sessions for talking to peers.
pub struct EncryptionService {
    private_key: [u8; 32],
    public_key: [u8; 32],
    signing_key: [u8; 32],
    verifying_key: [u8; 32],
    identity_key: [u8; 32],
    identity_public: [u8; 32],
    peer_public_keys: Table<[u8; 32]>,
    peer_signing_keys: Table<[u8; 32]>,
    peer_identity_keys: Table<[u8; 32]>,
    shared_secrets: Table<[u8; 32]>,
    noise_manager: NoiseSessionManager,
    peer_encryption_types: Table<EncryptionType>,
    prefer_noise: bool,
}

/// A table of keys as a map of byte sequences.
pub open spec fn key_map(table: Map<Seq<char>, [u8; 32]>) -> Map<Seq<char>, Seq<u8>> {
    table.map_values(|k: [u8; 32]| k@)
}

impl View for EncryptionService {
    type V = Service;

    closed spec fn view(&self) -> Service {
        Service {
            private_key: self.private_key@,
            signing_seed: self.signing_key@,
            identity_seed: self.identity_key@,
            peer_public_keys: key_map(self.peer_public_keys.map()),
            peer_signing_keys: key_map(self.peer_signing_keys.map()),
            peer_identity_keys: key_map(self.peer_identity_keys.map()),
            shared_secrets: key_map(self.shared_secrets.map()),
            noise: self.noise_manager@,
            peers: self.peer_encryption_types.keys(),
            types: self.peer_encryption_types.map(),
            prefer_noise: self.prefer_noise,
        }
    }
}

/// What the status of all peers looks like as a sequence.
pub open spec fn status_view(list: Seq<(String, EncryptionType, bool)>) -> Seq<
    (Seq<char>, EncryptionType, bool),
> {
    list.map_values(|e: (String, EncryptionType, bool)| (e.0@, e.1, e.2))
}

/// Encrypts under a key and a nonce, and puts the nonce in front.
fn seal_keyed(key: &[u8; 32], data: &[u8], nonce: [u8; 12]) -> (r: Result<
    Vec<u8>,
    EncryptionError,
>)
    ensures
        bytes_view(r) == keyed_seal(key@, data@, nonce@),
        r matches Ok(c) ==> c@.len() == data@.len() + 28,
{
    match aes_seal(key, &nonce, data) {
        Ok(ciphertext) => Ok(concat_bytes(&nonce, &ciphertext)),
        Err(_) => Err(EncryptionError::EncryptionFailed),
    }
}

/// Decrypts under a key what has its nonce in front.
fn open_keyed(key: &[u8; 32], data: &[u8]) -> (r: Result<Vec<u8>, EncryptionError>)
    ensures
        bytes_view(r) == keyed_open(key@, data@),
        forall|p: Seq<u8>, nonce: Seq<u8>|
            nonce.len() == 12 && #[trigger] keyed_seal(key@, p, nonce) == Ok::<
                Seq<u8>,
                EncryptionError,
            >(data@) ==> bytes_view(r) == Ok::<Seq<u8>, EncryptionError>(p),
        r matches Ok(p) ==> sealed_as(key@, p@, data@) && data@.len() == p@.len() + 28,
{
    if data.len() < 12 {
        return Err(EncryptionError::DecryptionFailed);
    }
    let (nonce_part, ciphertext) = data.split_at(12);
    let nonce: [u8; 12] = array_12(nonce_part);
    let r: Result<Vec<u8>, EncryptionError> = match aes_open(key, &nonce, ciphertext) {
        Ok(plaintext) => Ok(plaintext),
        Err(_) => Err(EncryptionError::DecryptionFailed),
    };
    proof {
        assert(nonce_part@ =~= data@.subrange(0, 12));
        assert(ciphertext@ =~= data@.subrange(12, data@.len() as int));
        assert(data@.subrange(0, 12) + data@.subrange(12, data@.len() as int) =~= data@);
        assert forall|p: Seq<u8>, n: Seq<u8>|
            n.len() == 12 && #[trigger] keyed_seal(key@, p, n) == Ok::<Seq<u8>, EncryptionError>(
                data@,
            ) implies bytes_view(r) == Ok::<Seq<u8>, EncryptionError>(p) by {
            let c = aes_sealed(key@, n, p);
            assert(data@ == n + c);
            assert(data@.subrange(0, 12) =~= n);
            assert(data@.subrange(12, data@.len() as int) =~= c);
        }
    }
    r
}

impl EncryptionService {
    /// The public keys are those of the secret ones, and no peer is listed twice.
    spec fn parts_wf(&self) -> bool {
        &&& self.public_key@ == x25519_public(self.private_key@)
        &&& self.verifying_key@ == ed25519_public(self.signing_key@)
        &&& self.identity_public@ == ed25519_public(self.identity_key@)
        &&& ed25519_decodes(self.verifying_key@)
        &&& ed25519_decodes(self.identity_public@)
        &&& self.peer_public_keys.wf()
        &&& self.peer_signing_keys.wf()
        &&& self.peer_identity_keys.wf()
        &&& self.shared_secrets.wf()
        &&& self.noise_manager.wf()
        &&& self.peer_encryption_types.wf()
    }

    /// The public keys are those of the secret ones, no peer is listed twice, and the peers are as
    /// the operations leave them.
    pub closed spec fn wf(&self) -> bool {
        self.parts_wf() && service_reachable(self@)
    }

    /// What holds of every service: of its keys, of its peers, and of the lists of them.
    pub proof fn lemma_valid(&self)
        requires
            self.wf(),
        ensures
            service_valid(self@),
            service_reachable(self@),
            self@.peers.no_duplicates(),
            forall|peer: Seq<char>| #[trigger]
                self@.types.contains_key(peer) <==> self@.peers.contains(peer),
            self@.noise.peers.no_duplicates(),
            forall|peer: Seq<char>| #[trigger]
                self@.noise.sessions.contains_key(peer) <==> self@.noise.peers.contains(peer),
    {
        self.noise_manager.lemma_table();
        self.peer_encryption_types.lemma_keys();
    }

    /// A service with the given secrets that knows no peer.
    pub fn with_keys(
        private_key: [u8; 32],
        signing_key: [u8; 32],
        identity_key: [u8; 32],
        noise_static: [u8; 32],
        prefer_noise: bool,
    ) -> (r: Self)
        ensures
            r.wf(),
            r@ == service_initial(
                private_key@,
                signing_key@,
                identity_key@,
                sessions_initial(noise_static@),
                prefer_noise,
            ),
    {
        let r = EncryptionService {
            private_key,
            public_key: x25519_public_key(&private_key),
            signing_key,
            verifying_key: ed25519_public_key(&signing_key),
            identity_key,
            identity_public: ed25519_public_key(&identity_key),
            peer_public_keys: Table::new(),
            peer_signing_keys: Table::new(),
            peer_identity_keys: Table::new(),
            shared_secrets: Table::new(),
            noise_manager: NoiseSessionManager::with_static(noise_static),
            peer_encryption_types: Table::new(),
            prefer_noise,
        };
        proof {
            let none = Map::<Seq<char>, Seq<u8>>::empty();
            assert(r@.peer_public_keys =~= none);
            assert(r@.peer_signing_keys =~= none);
            assert(r@.peer_identity_keys =~= none);
            assert(r@.shared_secrets =~= none);
            initial_services_are_reachable(
                private_key@,
                signing_key@,
                identity_key@,
                noise_static@,
                prefer_noise,
            );
        }
        r
    }

    /// A service with fresh secrets that knows no peer and prefers Noise.
    pub fn new() -> (r: Self)
        ensures
            r.wf(),
            exists|private_key: Seq<u8>, signing: Seq<u8>, identity: Seq<u8>, noise: Seq<u8>|
                {
                    &&& private_key.len() == 32
                    &&& signing.len() == 32
                    &&& identity.len() == 32
                    &&& noise.len() == 32
                    &&& r@ == #[trigger] service_initial(
                        private_key,
                        signing,
                        identity,
                        sessions_initial(noise),
                        true,
                    )
                },
    {
        let private_key: [u8; 32] = random_secret_from_rng();
        let signing_key: [u8; 32] = random_signing_seed();
        let identity_key: [u8; 32] = random_signing_seed();
        let noise_static: [u8; 32] = random_secret();
        proof {
            assert(private_key@.len() == 32 && signing_key@.len() == 32);
            assert(identity_key@.len() == 32 && noise_static@.len() == 32);
        }
        Self::with_keys(private_key, signing_key, identity_key, noise_static, true)
    }

    /// Our public keys for a peer that knows Noise: 32 bytes each of encryption key, signing key,
    /// identity key and Noise static key.
    pub fn get_combined_public_key_data(&self) -> (r: Vec<u8>)
        requires
            self.wf(),
        ensures
            r@ == combined_keys(self@),
            r@.len() == 128,
    {
        let mut data: Vec<u8> = self.get_legacy_public_key_data();
        let noise_static: [u8; 32] = self.noise_manager.get_local_static_public();
        append_bytes(&mut data, &noise_static);
        data
    }

    /// Our public keys for a peer that does not know Noise: 32 bytes each of encryption key,
    /// signing key and identity key.
    pub fn get_legacy_public_key_data(&self) -> (r: Vec<u8>)
        requires
            self.wf(),
        ensures
            r@ == legacy_keys(self@),
            r@.len() == 96,
    {
        let mut data: Vec<u8> = concat_bytes(&self.public_key, &self.verifying_key);
        append_bytes(&mut data, &self.identity_public);
        data
    }

    /// Stores a peer's keys and the secret that they share with ours.
    fn store_legacy_keys(
        &mut self,
        peer_id: &str,
        key_bytes: &[u8; 32],
        signing_bytes: &[u8; 32],
        identity_bytes: &[u8; 32],
    ) -> (r: Result<(), EncryptionError>)
        requires
            old(self).parts_wf(),
        ensures
            final(self).parts_wf(),
            (r, final(self)@) == store_step(
                old(self)@,
                peer_id@,
                key_bytes@,
                signing_bytes@,
                identity_bytes@,
            ),
            r is Ok ==> agrees_with_owner(old(self)@.private_key, key_bytes@),
    {
        let ghost before = self@;
        if !ed25519_key_decodes(signing_bytes) {
            return Err(EncryptionError::InvalidPublicKey);
        }
        let identity: [u8; 32] = if ed25519_key_decodes(identity_bytes) {
            *identity_bytes
        } else {
            *signing_bytes
        };
        self.peer_public_keys.insert(peer_id, *key_bytes);
        self.peer_signing_keys.insert(peer_id, *signing_bytes);
        self.peer_identity_keys.insert(peer_id, identity);
        let shared_secret: [u8; 32] = x25519_diffie_hellman(&self.private_key, key_bytes);
        let none: [u8; 0] = [];
        assert(none@ =~= Seq::<u8>::empty());
        let okm: Vec<u8> = hkdf_sha256("bitchat-v1".as_bytes(), &shared_secret, &none, 32);
        let secret: [u8; 32] = array_32(&okm);
        self.shared_secrets.insert(peer_id, secret);
        proof {
            assert(self@.peer_public_keys =~= before.peer_public_keys.insert(peer_id@, key_bytes@));
            assert(self@.peer_signing_keys =~= before.peer_signing_keys.insert(
                peer_id@,
                signing_bytes@,
            ));
            assert(self@.peer_identity_keys =~= before.peer_identity_keys.insert(
                peer_id@,
                kept_identity(signing_bytes@, identity_bytes@),
            ));
            assert(self@.shared_secrets =~= before.shared_secrets.insert(
                peer_id@,
                symmetric_key(before.private_key, key_bytes@),
            ));
        }
        Ok(())
    }

    /// Sets a peer's encryption type.
    fn set_type(&mut self, peer_id: &str, encryption_type: EncryptionType)
        requires
            old(self).parts_wf(),
        ensures
            final(self).parts_wf(),
            final(self)@ == with_type(old(self)@, peer_id@, encryption_type),
    {
        self.peer_encryption_types.insert(peer_id, encryption_type);
    }

    /// Adds a peer by its key data at the time `now`. When two services have added each other, what
    /// either encrypts is for the other to decrypt.
    pub fn add_peer_public_key_at(&mut self, peer_id: &str, public_key_data: &[u8], now: u128) -> (r:
        Result<(), EncryptionError>)
        requires
            old(self).wf(),
        ensures
            final(self).wf(),
            (r, final(self)@) == add_peer_step(old(self)@, peer_id@, public_key_data@, now),
            forall|b: Service, me: Seq<char>, ours: Seq<u8>, t: u128|
                service_valid(b) && is_key_data(b, public_key_data@) && is_key_data(
                    old(self)@,
                    ours,
                ) ==> linked(
                    final(self)@,
                    peer_id@,
                    (#[trigger] add_peer_step(b, me, ours, t)).1,
                    me,
                ) && linked(add_peer_step(b, me, ours, t).1, me, final(self)@, peer_id@),
    {
        let ghost before = self@;
        proof {
            self.lemma_valid();
            services_stay_reachable(before, peer_id@, public_key_data@, Seq::empty(), now);
        }
        if public_key_data.len() != 128 && public_key_data.len() != 96 {
            return Err(EncryptionError::InvalidPublicKey);
        }
        let (key_part, rest) = public_key_data.split_at(32);
        let (signing_part, rest) = rest.split_at(32);
        let (identity_part, _rest) = rest.split_at(32);
        proof {
            assert(key_part@ =~= public_key_data@.subrange(0, 32));
            assert(signing_part@ =~= public_key_data@.subrange(32, 64));
            assert(identity_part@ =~= public_key_data@.subrange(64, 96));
        }
        let key_bytes: [u8; 32] = array_32(key_part);
        let signing_bytes: [u8; 32] = array_32(signing_part);
        let identity_bytes: [u8; 32] = array_32(identity_part);
        match self.store_legacy_keys(peer_id, &key_bytes, &signing_bytes, &identity_bytes) {
            Ok(()) => {},
            Err(error) => {
                proof {
                    assert forall|b: Service| #[trigger] service_valid(b) implies !is_key_data(
                        b,
                        public_key_data@,
                    ) by {
                        if is_key_data(b, public_key_data@) {
                            key_data_is_accepted(before, b, peer_id@, public_key_data@, now);
                        }
                    }
                }
                return Err(error);
            },
        }
        let encryption_type: EncryptionType = if public_key_data.len() == 128 && self.prefer_noise {
            match self.noise_manager.create_session_at(peer_id, NoiseRole::Initiator, now) {
                Ok(()) => EncryptionType::Noise,
                Err(_) => EncryptionType::Legacy,
            }
        } else {
            EncryptionType::Legacy
        };
        self.set_type(peer_id, encryption_type);
        proof {
            assert forall|b: Service, me: Seq<char>, ours: Seq<u8>, t: u128|
                service_valid(b) && is_key_data(b, public_key_data@) && is_key_data(
                    before,
                    ours,
                ) implies linked(
                self@,
                peer_id@,
                (#[trigger] add_peer_step(b, me, ours, t)).1,
                me,
            ) && linked(add_peer_step(b, me, ours, t).1, me, self@, peer_id@) by {
                lemma_exchange(before, peer_id@, public_key_data@, now, b, me, ours, t);
            }
        }
        Ok(())
    }

    /// Adds a peer by its key data: 96 bytes, or 128 where it supports Noise. When two services
    /// have added each other, what either encrypts is for the other to decrypt.
    pub fn add_peer_public_key(&mut self, peer_id: &str, public_key_data: &[u8]) -> (r: Result<
        (),
        EncryptionError,
    >)
        requires
            old(self).wf(),
        ensures
            final(self).wf(),
            exists|now: u128|
                (r, final(self)@) == #[trigger] add_peer_step(
                    old(self)@,
                    peer_id@,
                    public_key_data@,
                    now,
                ),
            forall|b: Service, me: Seq<char>, ours: Seq<u8>, t: u128|
                service_valid(b) && is_key_data(b, public_key_data@) && is_key_data(
                    old(self)@,
                    ours,
                ) ==> linked(
                    final(self)@,
                    peer_id@,
                    (#[trigger] add_peer_step(b, me, ours, t)).1,
                    me,
                ) && linked(add_peer_step(b, me, ours, t).1, me, final(self)@, peer_id@),
    {
        let now: u128 = self.noise_manager.now();
        self.add_peer_public_key_at(peer_id, public_key_data, now)
    }

    /// The encryption type of a peer, if it is known.
    pub fn get_peer_encryption_type(&self, peer_id: &str) -> (r: Option<EncryptionType>)
        requires
            self.wf(),
        ensures
            r == type_of(self@, peer_id@),
    {
        match self.peer_encryption_types.get(peer_id) {
            Some(t) => Some(*t),
            None => None,
        }
    }

    /// Writes the next Noise handshake message for a peer with the fresh secret `ephemeral` at the
    /// time `now`.
    pub fn initiate_noise_handshake_with(
        &mut self,
        peer_id: &str,
        ephemeral: [u8; 32],
        now: u128,
    ) -> (r: Result<Vec<u8>, EncryptionError>)
        requires
            old(self).wf(),
        ensures
            final(self).wf(),
            (bytes_view(r), final(self)@) == initiate_step(
                old(self)@,
                peer_id@,
                ephemeral@,
                now,
            ),
            r matches Ok(message) ==> message@.len() == message_length(
                handshake_with(old(self)@, peer_id@),
            ),
            r is Ok ==> sends_acceptable_keys(handshake_with(old(self)@, peer_id@), ephemeral@),
    {
        proof {
            services_stay_reachable(self@, peer_id@, Seq::empty(), ephemeral@, now);
            assert(peer_reachable(self@, peer_id@));
        }
        if let Some(EncryptionType::Noise) = self.get_peer_encryption_type(peer_id) {
            if !self.noise_manager.has_session(peer_id) {
                match self.noise_manager.create_session_at(peer_id, NoiseRole::Initiator, now) {
                    Ok(()) => {},
                    Err(error) => {
                        return Err(EncryptionError::from(error));
                    },
                }
            }
            if let Some(session) = self.noise_manager.session_mut(peer_id) {
                return match session.start_handshake_with(ephemeral, now) {
                    Ok(message) => Ok(message),
                    Err(error) => Err(EncryptionError::from(error)),
                };
            }
        }
        Err(EncryptionError::NoSharedSecret)
    }

    /// Writes the next Noise handshake message for a peer.
    pub fn initiate_noise_handshake(&mut self, peer_id: &str) -> (r: Result<
        Vec<u8>,
        EncryptionError,
    >)
        requires
            old(self).wf(),
        ensures
            final(self).wf(),
            exists|ephemeral: Seq<u8>, now: u128|
                ephemeral.len() == 32 && (bytes_view(r), final(self)@) == #[trigger] initiate_step(
                    old(self)@,
                    peer_id@,
                    ephemeral,
                    now,
                ) && (r is Ok ==> sends_acceptable_keys(
                    handshake_with(old(self)@, peer_id@),
                    ephemeral,
                )),
            r matches Ok(message) ==> message@.len() == message_length(
                handshake_with(old(self)@, peer_id@),
            ),
    {
        let ephemeral: [u8; 32] = random_secret();
        let now: u128 = self.noise_manager.now();
        assert(ephemeral@.len() == 32);
        self.initiate_noise_handshake_with(peer_id, ephemeral, now)
    }

    /// Reads a Noise handshake message from a peer at the time `now`; where it has to be answered,
    /// the answer is written with the fresh secret `ephemeral`. A message that arrives as the other
    /// end wrote it is accepted; if it is the last one, the session ends up with the other end's
    /// ciphers.
    pub fn process_noise_handshake_with(
        &mut self,
        peer_id: &str,
        message: &[u8],
        ephemeral: [u8; 32],
        now: u128,
    ) -> (r: Result<Option<Vec<u8>>, EncryptionError>)
        requires
            old(self).wf(),
            noise_can_process(old(self)@, peer_id@, message@.len()),
        ensures
            final(self).wf(),
            (reply_view(r), final(self)@) == handshake_step(
                old(self)@,
                peer_id@,
                message@,
                ephemeral@,
                now,
            ),
            reading_session(old(self)@, peer_id@, now) matches Some(session) ==> forall|
                w: Handshake,
                e: Seq<u8>,
            | #[trigger]
                is_due(w, e, session, message@) ==> r is Ok && joined(
                    write_step(w, e).1,
                    final(self)@.noise.sessions[peer_id@],
                ),
    {
        proof {
            services_stay_reachable(self@, peer_id@, message@, ephemeral@, now);
        }
        if !self.noise_manager.has_session(peer_id) {
            match self.noise_manager.create_session_at(peer_id, NoiseRole::Responder, now) {
                Ok(()) => {},
                Err(error) => {
                    return Err(EncryptionError::from(error));
                },
            }
            self.set_type(peer_id, EncryptionType::Noise);
        }
        if let Some(session) = self.noise_manager.session_mut(peer_id) {
            return match session.process_handshake_message_with(message, ephemeral, now) {
                Ok(response) => Ok(response),
                Err(error) => Err(EncryptionError::from(error)),
            };
        }
        Err(EncryptionError::NoSharedSecret)
    }

    /// Reads a Noise handshake message from a peer. One that arrives as the other end of the session
    /// wrote it is accepted; if it is the last one, the session ends up with the other end's
    /// ciphers.
    pub fn process_noise_handshake(&mut self, peer_id: &str, message: &[u8]) -> (r: Result<
        Option<Vec<u8>>,
        EncryptionError,
    >)
        requires
            old(self).wf(),
            noise_can_process(old(self)@, peer_id@, message@.len()),
        ensures
            final(self).wf(),
            exists|ephemeral: Seq<u8>, now: u128|
                ephemeral.len() == 32 && (reply_view(r), final(self)@)
                    == #[trigger] handshake_step(
                    old(self)@,
                    peer_id@,
                    message@,
                    ephemeral,
                    now,
                ),
            old(self)@.noise.sessions.contains_key(peer_id@) ==> forall|w: Handshake, e: Seq<u8>|
                #[trigger]
                is_due(w, e, old(self)@.noise.sessions[peer_id@], message@) ==> r is Ok && joined(
                    write_step(w, e).1,
                    final(self)@.noise.sessions[peer_id@],
                ),
    {
        let ephemeral: [u8; 32] = random_secret();
        let now: u128 = self.noise_manager.now();
        assert(ephemeral@.len() == 32);
        self.process_noise_handshake_with(peer_id, message, ephemeral, now)
    }

    /// Whether messages for a peer go through a Noise session.
    fn goes_by_noise(&self, peer_id: &str) -> (r: bool)
        requires
            self.wf(),
        ensures
            r == uses_noise(self@, peer_id@),
    {
        match self.get_peer_encryption_type(peer_id) {
            Some(EncryptionType::Noise) => self.noise_manager.is_established(peer_id),
            _ => false,
        }
    }

    /// Whether a message of `len` bytes can be encrypted for a peer.
    pub fn takes_outgoing(&self, peer_id: &str, len: usize) -> (r: bool)
        requires
            self.wf(),
        ensures
            r == noise_can_send(self@, peer_id@, len as nat),
    {
        if self.goes_by_noise(peer_id) {
            if let Some(session) = self.noise_manager.session(peer_id) {
                return session.takes_outgoing(len);
            }
        }
        true
    }

    /// Whether a message of `len` bytes from a peer can be decrypted.
    pub fn takes_incoming(&self, peer_id: &str, len: usize) -> (r: bool)
        requires
            self.wf(),
        ensures
            r == noise_can_receive(self@, peer_id@, len as nat),
    {
        if self.goes_by_noise(peer_id) {
            if let Some(session) = self.noise_manager.session(peer_id) {
                return session.takes_incoming(len);
            }
        }
        true
    }

    /// Whether a handshake message of `len` bytes from a peer can be read.
    pub fn takes_handshake(&self, peer_id: &str, len: usize) -> (r: bool)
        requires
            self.wf(),
        ensures
            r == noise_can_process(self@, peer_id@, len as nat),
    {
        match self.noise_manager.session(peer_id) {
            Some(session) => session.takes_handshake(len),
            None => true,
        }
    }

    /// Encrypts data for a peer at the time `now`; where AES-GCM does it, under `nonce`.
    pub fn encrypt_with(&mut self, data: &[u8], peer_id: &str, nonce: [u8; 12], now: u128) -> (r:
        Result<Vec<u8>, EncryptionError>)
        requires
            old(self).wf(),
            noise_can_send(old(self)@, peer_id@, data@.len()),
        ensures
            final(self).wf(),
            (bytes_view(r), final(self)@) == encrypt_step(
                old(self)@,
                data@,
                peer_id@,
                nonce@,
                now,
            ),
            r matches Ok(c) ==> c@.len() == data@.len() + overhead(old(self)@, peer_id@),
            r is Ok <==> has_key(old(self)@, peer_id@) && data@.len() <= longest_message(
                old(self)@,
                peer_id@,
            ),
            !has_key(old(self)@, peer_id@) ==> bytes_view(r) == Err::<Seq<u8>, EncryptionError>(
                EncryptionError::NoSharedSecret,
            ),
    {
        proof {
            services_stay_reachable(self@, peer_id@, data@, nonce@, now);
            a_key_is_all_it_takes(self@, data@, peer_id@, nonce@, now);
        }
        if self.goes_by_noise(peer_id) {
            if let Some(session) = self.noise_manager.session_mut(peer_id) {
                return match session.encrypt_at(data, now) {
                    Ok(ciphertext) => Ok(ciphertext),
                    Err(error) => Err(EncryptionError::from(error)),
                };
            }
        }
        self.encrypt_legacy(data, peer_id, nonce)
    }

    /// Encrypts data for a peer: through the Noise session where one is established, else under the
    /// secret that is shared with the peer.
    pub fn encrypt(&mut self, data: &[u8], peer_id: &str) -> (r: Result<Vec<u8>, EncryptionError>)
        requires
            old(self).wf(),
            noise_can_send(old(self)@, peer_id@, data@.len()),
        ensures
            final(self).wf(),
            exists|nonce: Seq<u8>, now: u128|
                nonce.len() == 12 && (bytes_view(r), final(self)@) == #[trigger] encrypt_step(
                    old(self)@,
                    data@,
                    peer_id@,
                    nonce,
                    now,
                ),
            r matches Ok(c) ==> c@.len() == data@.len() + overhead(old(self)@, peer_id@),
            r is Ok <==> has_key(old(self)@, peer_id@) && data@.len() <= longest_message(
                old(self)@,
                peer_id@,
            ),
            !has_key(old(self)@, peer_id@) ==> bytes_view(r) == Err::<Seq<u8>, EncryptionError>(
                EncryptionError::NoSharedSecret,
            ),
    {
        let nonce: [u8; 12] = random_nonce();
        let now: u128 = self.noise_manager.now();
        assert(nonce@.len() == 12);
        self.encrypt_with(data, peer_id, nonce, now)
    }

    /// Decrypts data from a peer at the time `now`. What a service encrypted that is linked to this
    /// one comes out as it went in, and the two stay linked.
    pub fn decrypt_at(&mut self, data: &[u8], peer_id: &str, now: u128) -> (r: Result<
        Vec<u8>,
        EncryptionError,
    >)
        requires
            old(self).wf(),
            noise_can_receive(old(self)@, peer_id@, data@.len()),
        ensures
            final(self).wf(),
            (bytes_view(r), final(self)@) == decrypt_step(old(self)@, data@, peer_id@, now),
            forall|peer: Service, me: Seq<char>, p: Seq<u8>, nonce: Seq<u8>, t: u128|
                linked(peer, me, old(self)@, peer_id@) && nonce.len() == 12 && (
                #[trigger] encrypt_step(peer, p, me, nonce, t)).0 == Ok::<Seq<u8>, EncryptionError>(
                    data@,
                ) ==> bytes_view(r) == Ok::<Seq<u8>, EncryptionError>(p) && linked(
                    encrypt_step(peer, p, me, nonce, t).1,
                    me,
                    final(self)@,
                    peer_id@,
                ),
            old(self)@.types.contains_key(peer_id@) && old(self)@.types[peer_id@]
                == EncryptionType::Noise && old(self)@.noise.sessions.contains_key(peer_id@)
                && old(self)@.noise.sessions[peer_id@].established ==> (
            old(self)@.noise.sessions[peer_id@].recv matches Some(c) ==> forall|p: Seq<u8>|
                p.len() <= CHACHA_MAX_PLAINTEXT && data@ == #[trigger] chacha_sealed(
                    c.key,
                    message_nonce(c.nonce),
                    p,
                ) ==> bytes_view(r) == Ok::<Seq<u8>, EncryptionError>(p)),
    {
        proof {
            services_stay_reachable(self@, peer_id@, data@, Seq::empty(), now);
        }
        if self.goes_by_noise(peer_id) {
            if let Some(session) = self.noise_manager.session_mut(peer_id) {
                return match session.decrypt_at(data, now) {
                    Ok(plaintext) => Ok(plaintext),
                    Err(error) => Err(EncryptionError::from(error)),
                };
            }
        }
        self.decrypt_legacy(data, peer_id)
    }

    /// Decrypts data from a peer: through the Noise session where one is established, else under
    /// the secret that is shared with the peer. What a service encrypted that is linked to this one
    /// comes out as it went in, and the two stay linked.
    pub fn decrypt(&mut self, data: &[u8], peer_id: &str) -> (r: Result<Vec<u8>, EncryptionError>)
        requires
            old(self).wf(),
            noise_can_receive(old(self)@, peer_id@, data@.len()),
        ensures
            final(self).wf(),
            exists|now: u128|
                (bytes_view(r), final(self)@) == #[trigger] decrypt_step(
                    old(self)@,
                    data@,
                    peer_id@,
                    now,
                ),
            forall|peer: Service, me: Seq<char>, p: Seq<u8>, nonce: Seq<u8>, t: u128|
                linked(peer, me, old(self)@, peer_id@) && nonce.len() == 12 && (
                #[trigger] encrypt_step(peer, p, me, nonce, t)).0 == Ok::<Seq<u8>, EncryptionError>(
                    data@,
                ) ==> bytes_view(r) == Ok::<Seq<u8>, EncryptionError>(p) && linked(
                    encrypt_step(peer, p, me, nonce, t).1,
                    me,
                    final(self)@,
                    peer_id@,
                ),
            old(self)@.types.contains_key(peer_id@) && old(self)@.types[peer_id@]
                == EncryptionType::Noise && old(self)@.noise.sessions.contains_key(peer_id@)
                && old(self)@.noise.sessions[peer_id@].established ==> (
            old(self)@.noise.sessions[peer_id@].recv matches Some(c) ==> forall|p: Seq<u8>|
                p.len() <= CHACHA_MAX_PLAINTEXT && data@ == #[trigger] chacha_sealed(
                    c.key,
                    message_nonce(c.nonce),
                    p,
                ) ==> bytes_view(r) == Ok::<Seq<u8>, EncryptionError>(p)),
    {
        let now: u128 = self.noise_manager.now();
        self.decrypt_at(data, peer_id, now)
    }

    /// Encrypts under the secret that is shared with a peer.
    fn encrypt_legacy(&self, data: &[u8], peer_id: &str, nonce: [u8; 12]) -> (r: Result<
        Vec<u8>,
        EncryptionError,
    >)
        requires
            self.wf(),
        ensures
            bytes_view(r) == legacy_seal(self@, data@, peer_id@, nonce@),
            r matches Ok(c) ==> c@.len() == data@.len() + 28,
    {
        match self.shared_secrets.get(peer_id) {
            Some(key) => seal_keyed(key, data, nonce),
            None => Err(EncryptionError::NoSharedSecret),
        }
    }

    /// Decrypts under the secret that is shared with a peer.
    fn decrypt_legacy(&self, data: &[u8], peer_id: &str) -> (r: Result<Vec<u8>, EncryptionError>)
        requires
            self.wf(),
        ensures
            bytes_view(r) == legacy_open(self@, data@, peer_id@),
            self@.shared_secrets.contains_key(peer_id@) ==> forall|p: Seq<u8>, nonce: Seq<u8>|
                nonce.len() == 12 && #[trigger] keyed_seal(
                    self@.shared_secrets[peer_id@],
                    p,
                    nonce,
                ) == Ok::<Seq<u8>, EncryptionError>(data@) ==> bytes_view(r) == Ok::<
                    Seq<u8>,
                    EncryptionError,
                >(p),
    {
        if data.len() < 12 {
            return Err(EncryptionError::DecryptionFailed);
        }
        match self.shared_secrets.get(peer_id) {
            Some(key) => open_keyed(key, data),
            None => Err(EncryptionError::NoSharedSecret),
        }
    }

    /// A peer's identity key.
    pub fn get_peer_identity_key(&self, peer_id: &str) -> (r: Option<Vec<u8>>)
        requires
            self.wf(),
        ensures
            if self@.peer_identity_keys.contains_key(peer_id@) {
                r matches Some(key) && key@ == self@.peer_identity_keys[peer_id@]
            } else {
                r is None
            },
    {
        match self.peer_identity_keys.get(peer_id) {
            Some(key) => Some(copy_bytes(key)),
            None => None,
        }
    }

    /// A peer's fingerprint: that of its Noise static key where it is known, else that of its
    /// identity key.
    pub fn get_peer_fingerprint(&self, peer_id: &str) -> (r: Option<String>)
        requires
            self.wf(),
        ensures
            match peer_fingerprint(self@, peer_id@) {
                Some(text) => r matches Some(s) && s@ == text && s@.len() == 32,
                None => r is None,
            },
    {
        if let Some(EncryptionType::Noise) = self.get_peer_encryption_type(peer_id) {
            if let Some(session) = self.noise_manager.session(peer_id) {
                if let Some(text) = session.get_remote_fingerprint() {
                    return Some(text);
                }
            }
        }
        match self.get_peer_identity_key(peer_id) {
            Some(key) => Some(key_fingerprint(&key)),
            None => None,
        }
    }

    /// Signs data with our signing key.
    pub fn sign(&self, data: &[u8]) -> (r: Vec<u8>)
        ensures
            r@ == ed25519_signature(self@.signing_seed, data@),
            r@.len() == 64,
    {
        let signature: [u8; 64] = ed25519_sign(&self.signing_key, data);
        copy_bytes(&signature)
    }

    /// Whether a signature on data is one of a peer's. What the peer has signed with the key that
    /// we know of it is accepted.
    pub fn verify(&self, signature: &[u8], data: &[u8], peer_id: &str) -> (r: Result<
        bool,
        EncryptionError,
    >)
        requires
            self.wf(),
        ensures
            r == (if !self@.peer_signing_keys.contains_key(peer_id@) {
                Err::<bool, EncryptionError>(EncryptionError::NoSharedSecret)
            } else if signature@.len() != 64 {
                Err(EncryptionError::SignatureVerificationFailed)
            } else {
                Ok(ed25519_accepts(self@.peer_signing_keys[peer_id@], data@, signature@))
            }),
            forall|signer: Service| #[trigger]
                signed_by(signer, self@, peer_id@, data@, signature@) ==> r == Ok::<
                    bool,
                    EncryptionError,
                >(true),
    {
        match self.peer_signing_keys.get(peer_id) {
            Some(key) => {
                if signature.len() != 64 {
                    return Err(EncryptionError::SignatureVerificationFailed);
                }
                let signature_bytes: [u8; 64] = array_64(signature);
                Ok(ed25519_verify_strict(key, data, &signature_bytes))
            },
            None => Err(EncryptionError::NoSharedSecret),
        }
    }

    /// The key of a channel, derived from its password with the channel's name as salt.
    pub fn derive_channel_key(password: &str, channel_name: &str) -> (r: [u8; 32])
        ensures
            r@ == pbkdf2_key(
                encode_utf8(password@),
                encode_utf8(channel_name@),
                CHANNEL_KEY_ROUNDS,
            ),
    {
        pbkdf2_hmac_sha256(password.as_bytes(), channel_name.as_bytes(), CHANNEL_KEY_ROUNDS)
    }

    /// Encrypts data under a channel key and a nonce.
    pub fn encrypt_with_key_and_nonce(&self, data: &[u8], key: &[u8; 32], nonce: [u8; 12]) -> (r:
        Result<Vec<u8>, EncryptionError>)
        ensures
            bytes_view(r) == keyed_seal(key@, data@, nonce@),
            r matches Ok(c) ==> c@.len() == data@.len() + 28,
    {
        seal_keyed(key, data, nonce)
    }

    /// Encrypts data under a channel key.
    pub fn encrypt_with_key(&self, data: &[u8], key: &[u8; 32]) -> (r: Result<
        Vec<u8>,
        EncryptionError,
    >)
        ensures
            exists|nonce: Seq<u8>|
                nonce.len() == 12 && bytes_view(r) == #[trigger] keyed_seal(key@, data@, nonce),
            r matches Ok(c) ==> c@.len() == data@.len() + 28,
    {
        let nonce: [u8; 12] = random_nonce();
        assert(nonce@.len() == 12);
        seal_keyed(key, data, nonce)
    }

    /// Decrypts data under a channel key. What was encrypted under the same key comes out as it
    /// went in, and nothing else is accepted.
    pub fn decrypt_with_key(&self, data: &[u8], key: &[u8; 32]) -> (r: Result<
        Vec<u8>,
        EncryptionError,
    >)
        ensures
            bytes_view(r) == keyed_open(key@, data@),
            forall|p: Seq<u8>, nonce: Seq<u8>|
                nonce.len() == 12 && #[trigger] keyed_seal(key@, p, nonce) == Ok::<
                    Seq<u8>,
                    EncryptionError,
                >(data@) ==> bytes_view(r) == Ok::<Seq<u8>, EncryptionError>(p),
            r matches Ok(p) ==> sealed_as(key@, p@, data@) && data@.len() == p@.len() + 28,
    {
        open_keyed(key, data)
    }

    /// Whether messages for a peer can be encrypted, one way or the other.
    pub fn has_peer_key(&self, peer_id: &str) -> (r: bool)
        requires
            self.wf(),
        ensures
            r == has_key(self@, peer_id@),
    {
        if self.noise_manager.is_established(peer_id) {
            return true;
        }
        self.shared_secrets.contains(peer_id)
    }

    /// Encrypts data for a peer, as `encrypt` does.
    pub fn encrypt_for_peer(&mut self, peer_id: &str, data: &[u8]) -> (r: Result<
        Vec<u8>,
        EncryptionError,
    >)
        requires
            old(self).wf(),
            noise_can_send(old(self)@, peer_id@, data@.len()),
        ensures
            final(self).wf(),
            exists|nonce: Seq<u8>, now: u128|
                nonce.len() == 12 && (bytes_view(r), final(self)@) == #[trigger] encrypt_step(
                    old(self)@,
                    data@,
                    peer_id@,
                    nonce,
                    now,
                ),
            r matches Ok(c) ==> c@.len() == data@.len() + overhead(old(self)@, peer_id@),
            r is Ok <==> has_key(old(self)@, peer_id@) && data@.len() <= longest_message(
                old(self)@,
                peer_id@,
            ),
            !has_key(old(self)@, peer_id@) ==> bytes_view(r) == Err::<Seq<u8>, EncryptionError>(
                EncryptionError::NoSharedSecret,
            ),
    {
        self.encrypt(data, peer_id)
    }

    /// The encryption status of every peer: its id, its type, and whether that is ready. Each peer
    /// whose type is known is listed once.
    pub fn get_encryption_status(&self) -> (r: Vec<(String, EncryptionType, bool)>)
        requires
            self.wf(),
        ensures
            status_view(r@) == status(self@),
            forall|i: int, j: int|
                0 <= i < j < r@.len() ==> (#[trigger] r@[i]).0@ != (#[trigger] r@[j]).0@,
            forall|peer: Seq<char>| #[trigger]
                self@.types.contains_key(peer) <==> exists|i: int|
                    0 <= i < r@.len() && (#[trigger] r@[i]).0@ == peer,
    {
        let ghost service = self@;
        let mut list: Vec<(String, EncryptionType, bool)> = Vec::new();
        let mut i: usize = 0;
        while i < self.peer_encryption_types.len()
            invariant
                self.wf(),
                service == self@,
                i <= service.peers.len(),
                status_view(list@) =~= status(service).take(i as int),
            decreases service.peers.len() - i,
        {
            let ghost before = list@;
            let (peer_id, encryption_type) = self.peer_encryption_types.at(i);
            let is_ready: bool = match *encryption_type {
                EncryptionType::Noise => self.noise_manager.is_established(peer_id.as_str()),
                EncryptionType::Legacy => self.shared_secrets.contains(peer_id.as_str()),
            };
            let name: String = peer_id.clone();
            assert(is_ready == ready(service, name@));
            list.push((name, *encryption_type, is_ready));
            proof {
                assert(status_view(list@) =~= status_view(before).push(status(service)[i as int]));
                assert(status(service).take(i + 1) =~= status(service).take(i as int).push(
                    status(service)[i as int],
                ));
            }
            i = i + 1;
        }
        assert(status(service).take(i as int) =~= status(service));
        proof {
            self.lemma_valid();
            assert forall|k: int| 0 <= k < list@.len() implies (#[trigger] list@[k]).0@
                == service.peers[k] by {
                assert(status_view(list@)[k] == status(service)[k]);
            }
            assert forall|peer: Seq<char>| #[trigger]
                service.types.contains_key(peer) <==> exists|k: int|
                    0 <= k < list@.len() && (#[trigger] list@[k]).0@ == peer by {
                if service.peers.contains(peer) {
                    let k = choose|k: int| 0 <= k < service.peers.len() && service.peers[k] == peer;
                    assert(list@[k].0@ == peer);
                }
            }
        }
        list
    }

    /// Ends the Noise sessions with the given peers, who fall back to legacy encryption.
    fn end_sessions(&mut self, due: &Vec<String>)
        requires
            old(self).parts_wf(),
        ensures
            final(self).parts_wf(),
            final(self)@ == retire_all(old(self)@, texts(due@)),
    {
        let ghost before = self@;
        let ghost names = texts(due@);
        let mut i: usize = 0;
        assert(names.take(0) =~= Seq::<Seq<char>>::empty());
        while i < due.len()
            invariant
                self.parts_wf(),
                i <= due@.len(),
                texts(due@) == names,
                self@ == retire_all(before, names.take(i as int)),
            decreases due@.len() - i,
        {
            let peer_id: &str = due[i].as_str();
            proof {
                assert(names[i as int] == peer_id@);
                assert(names.take(i + 1).drop_last() =~= names.take(i as int));
                assert(names.take(i + 1).last() == peer_id@);
            }
            self.noise_manager.remove_session(peer_id);
            self.set_type(peer_id, EncryptionType::Legacy);
            i = i + 1;
        }
        assert(names.take(i as int) =~= names);
    }

    /// Ends the Noise sessions that need rekeying once their clocks show the time `now`; their
    /// peers fall back to legacy encryption.
    pub fn cleanup_noise_sessions_at(&mut self, now: u128)
        requires
            old(self).wf(),
        ensures
            final(self).wf(),
            final(self)@ == cleanup_step(old(self)@, all_at(old(self)@.noise, now)),
    {
        proof {
            cleanups_stay_reachable(self@, all_at(self@.noise, now));
        }
        let due: Vec<String> = self.noise_manager.get_sessions_needing_rekey_at(now);
        self.end_sessions(&due);
    }

    /// Ends the Noise sessions that need rekeying, each by its own clock; their peers fall back to
    /// legacy encryption.
    pub fn cleanup_noise_sessions(&mut self)
        requires
            old(self).wf(),
        ensures
            final(self).wf(),
            exists|nows: Seq<u128>|
                nows.len() == old(self)@.noise.peers.len() && final(self)@
                    == #[trigger] cleanup_step(old(self)@, nows),
    {
        let ghost before = self@;
        let due: Vec<String> = self.noise_manager.get_sessions_needing_rekey();
        proof {
            let nows = choose|nows: Seq<u128>|
                nows.len() == before.noise.peers.len() && texts(due@) == #[trigger] due_peers(
                    before.noise,
                    nows,
                );
            cleanups_stay_reachable(before, nows);
            assert(retire_all(before, texts(due@)) == cleanup_step(before, nows));
        }
        self.end_sessions(&due);
    }
}

} // verus!
