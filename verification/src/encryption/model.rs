//! The encryption service as a mathematical value, and what each operation makes of it.

use vstd::prelude::*;
use vstd::utf8::encode_utf8;

use crate::noise_encryption::handshake::{initial, Handshake, NoiseError, NoiseRole};
use crate::noise_encryption::manager::{
    create_step, due_peers, established_with, without_session, Sessions,
};
use crate::noise_encryption::session::{
    can_receive, can_send, fingerprint, process_returns, process_step, session_initial,
    session_open, session_seal, start_step, Session,
};
use crate::primitives::{
    aes_opened, aes_sealed, chacha_returns, ed25519_decodes, ed25519_identity, ed25519_public,
    ed25519_signature, hkdf_sha256_okm, x25519_public, x25519_shared, AES_MAX_PLAINTEXT,
    CHACHA_MAX_PLAINTEXT,
};
use crate::table::keys_with;

verus! {

/// Why an encryption operation failed.
#[derive(Debug, Clone, PartialEq, Eq, Structural)]
pub enum EncryptionError {
    NoSharedSecret,
    InvalidPublicKey,
    EncryptionFailed,
    DecryptionFailed,
    SignatureVerificationFailed,
    NoiseProtocolError(NoiseError),
}

impl From<NoiseError> for EncryptionError {
    fn from(err: NoiseError) -> (r: Self) {
        EncryptionError::NoiseProtocolError(err)
    }
}

impl vstd::std_specs::convert::FromSpecImpl<NoiseError> for EncryptionError {
    open spec fn obeys_from_spec() -> bool {
        true
    }

    open spec fn from_spec(err: NoiseError) -> Self {
        EncryptionError::NoiseProtocolError(err)
    }
}

/// How messages for a peer are encrypted.
#[derive(Debug, Clone, Copy, PartialEq, Eq, Structural)]
pub enum EncryptionType {
    /// X25519 and AES-GCM.
    Legacy,
    /// The Noise protocol, pattern XX.
    Noise,
}

/// The encryption service, as a mathematical value.
pub struct Service {
    pub private_key: Seq<u8>,
    pub signing_seed: Seq<u8>,
    pub identity_seed: Seq<u8>,
    pub peer_public_keys: Map<Seq<char>, Seq<u8>>,
    pub peer_signing_keys: Map<Seq<char>, Seq<u8>>,
    pub peer_identity_keys: Map<Seq<char>, Seq<u8>>,
    pub shared_secrets: Map<Seq<char>, Seq<u8>>,
    pub noise: Sessions,
    /// The peers whose encryption type is known, in the order in which they became so.
    pub peers: Seq<Seq<char>>,
    pub types: Map<Seq<char>, EncryptionType>,
    pub prefer_noise: bool,
}

/// A service that knows no peer.
pub open spec fn service_initial(
    private_key: Seq<u8>,
    signing_seed: Seq<u8>,
    identity_seed: Seq<u8>,
    noise: Sessions,
    prefer_noise: bool,
) -> Service {
    Service {
        private_key,
        signing_seed,
        identity_seed,
        peer_public_keys: Map::empty(),
        peer_signing_keys: Map::empty(),
        peer_identity_keys: Map::empty(),
        shared_secrets: Map::empty(),
        noise,
        peers: Seq::empty(),
        types: Map::empty(),
        prefer_noise,
    }
}

/// Key data without Noise support: encryption key, signing key, identity key.
pub open spec fn legacy_keys(s: Service) -> Seq<u8> {
    x25519_public(s.private_key) + ed25519_public(s.signing_seed) + ed25519_public(s.identity_seed)
}

/// Key data with Noise support: the static key comes last.
pub open spec fn combined_keys(s: Service) -> Seq<u8> {
    legacy_keys(s) + x25519_public(s.noise.local_static)
}

/// The symmetric key that a secret and a public key agree on.
pub open spec fn symmetric_key(private_key: Seq<u8>, public_key: Seq<u8>) -> Seq<u8> {
    hkdf_sha256_okm(
        encode_utf8("bitchat-v1"@),
        x25519_shared(private_key, public_key),
        Seq::<u8>::empty(),
        32,
    )
}

/// Whoever holds the secret of `public_key` computes from the public key of `private_key` the same
/// symmetric key that `private_key` and `public_key` agree on.
pub open spec fn agrees_with_owner(private_key: Seq<u8>, public_key: Seq<u8>) -> bool {
    forall|secret: Seq<u8>|
        secret.len() == 32 && #[trigger] x25519_public(secret) == public_key ==> symmetric_key(
            private_key,
            public_key,
        ) == symmetric_key(secret, x25519_public(private_key))
}

/// The identity key that is kept for a peer: one that is no key is replaced by the signing key.
pub open spec fn kept_identity(signing: Seq<u8>, identity: Seq<u8>) -> Seq<u8> {
    if ed25519_decodes(identity) {
        identity
    } else {
        signing
    }
}

/// Storing a peer's encryption, signing and identity key.
pub open spec fn store_step(
    s: Service,
    peer_id: Seq<char>,
    key: Seq<u8>,
    signing: Seq<u8>,
    identity: Seq<u8>,
) -> (Result<(), EncryptionError>, Service) {
    if ed25519_decodes(signing) {
        (
            Ok(()),
            Service {
                peer_public_keys: s.peer_public_keys.insert(peer_id, key),
                peer_signing_keys: s.peer_signing_keys.insert(peer_id, signing),
                peer_identity_keys: s.peer_identity_keys.insert(
                    peer_id,
                    kept_identity(signing, identity),
                ),
                shared_secrets: s.shared_secrets.insert(
                    peer_id,
                    symmetric_key(s.private_key, key),
                ),
                ..s
            },
        )
    } else {
        (Err(EncryptionError::InvalidPublicKey), s)
    }
}

/// The service once a peer's encryption type is known.
pub open spec fn with_type(s: Service, peer_id: Seq<char>, t: EncryptionType) -> Service {
    Service { peers: keys_with(s.peers, peer_id), types: s.types.insert(peer_id, t), ..s }
}

/// Adding a peer by its key data at the time `now`.
pub open spec fn add_peer_step(s: Service, peer_id: Seq<char>, data: Seq<u8>, now: u128) -> (
    Result<(), EncryptionError>,
    Service,
) {
    if data.len() != 96 && data.len() != 128 {
        (Err(EncryptionError::InvalidPublicKey), s)
    } else {
        match store_step(
            s,
            peer_id,
            data.subrange(0, 32),
            data.subrange(32, 64),
            data.subrange(64, 96),
        ) {
            (Ok(()), stored) => if data.len() == 128 && s.prefer_noise {
                let (outcome, noise) = create_step(s.noise, peer_id, NoiseRole::Initiator, now);
                let t = if outcome is Ok {
                    EncryptionType::Noise
                } else {
                    EncryptionType::Legacy
                };
                (Ok(()), with_type(Service { noise, ..stored }, peer_id, t))
            } else {
                (Ok(()), with_type(stored, peer_id, EncryptionType::Legacy))
            },
            (Err(error), stored) => (Err(error), stored),
        }
    }
}

/// The encryption type of a peer, if it is known.
pub open spec fn type_of(s: Service, peer_id: Seq<char>) -> Option<EncryptionType> {
    if s.types.contains_key(peer_id) {
        Some(s.types[peer_id])
    } else {
        None
    }
}

/// The service after the session with a peer has changed.
pub open spec fn with_session(s: Service, peer_id: Seq<char>, session: Session) -> Service {
    Service {
        noise: Sessions { sessions: s.noise.sessions.insert(peer_id, session), ..s.noise },
        ..s
    }
}

/// A Noise result as one of the service.
pub open spec fn noise_result<T>(r: Result<T, NoiseError>) -> Result<T, EncryptionError> {
    match r {
        Ok(x) => Ok(x),
        Err(e) => Err(EncryptionError::NoiseProtocolError(e)),
    }
}

/// The handshake that the next message for a peer belongs to: that of the session with it, or a new
/// one where there is none.
pub open spec fn handshake_with(s: Service, peer_id: Seq<char>) -> Handshake {
    if s.noise.sessions.contains_key(peer_id) {
        s.noise.sessions[peer_id].handshake->0
    } else {
        initial(NoiseRole::Initiator, s.noise.local_static)
    }
}

/// Writing the next handshake message for a peer, with a new session where there is none.
pub open spec fn initiate_step(
    s: Service,
    peer_id: Seq<char>,
    ephemeral: Seq<u8>,
    now: u128,
) -> (Result<Seq<u8>, EncryptionError>, Service) {
    if type_of(s, peer_id) != Some(EncryptionType::Noise) {
        (Err(EncryptionError::NoSharedSecret), s)
    } else {
        let (created, noise) = if s.noise.sessions.contains_key(peer_id) {
            (Ok::<(), NoiseError>(()), s.noise)
        } else {
            create_step(s.noise, peer_id, NoiseRole::Initiator, now)
        };
        let ready = Service { noise, ..s };
        match created {
            Ok(()) => {
                let (message, session) = start_step(noise.sessions[peer_id], ephemeral, now);
                (noise_result(message), with_session(ready, peer_id, session))
            },
            Err(error) => (Err(EncryptionError::NoiseProtocolError(error)), ready),
        }
    }
}

/// The session that reads a handshake message from a peer at the time `now`: the one with it, or a
/// new one where there is none, unless too many were begun lately.
pub open spec fn reading_session(s: Service, peer_id: Seq<char>, now: u128) -> Option<Session> {
    if s.noise.sessions.contains_key(peer_id) {
        Some(s.noise.sessions[peer_id])
    } else if create_step(s.noise, peer_id, NoiseRole::Responder, now).0 is Ok {
        Some(session_initial(peer_id, NoiseRole::Responder, s.noise.local_static, now))
    } else {
        None
    }
}

/// Reading a handshake message from a peer, with a new session where there is none.
pub open spec fn handshake_step(
    s: Service,
    peer_id: Seq<char>,
    message: Seq<u8>,
    ephemeral: Seq<u8>,
    now: u128,
) -> (Result<Option<Seq<u8>>, EncryptionError>, Service) {
    let (created, ready) = if s.noise.sessions.contains_key(peer_id) {
        (Ok::<(), NoiseError>(()), s)
    } else {
        let (outcome, noise) = create_step(s.noise, peer_id, NoiseRole::Responder, now);
        let begun = Service { noise, ..s };
        (
            outcome,
            if outcome is Ok {
                with_type(begun, peer_id, EncryptionType::Noise)
            } else {
                begun
            },
        )
    };
    match created {
        Ok(()) => {
            let (reply, session) = process_step(
                ready.noise.sessions[peer_id],
                message,
                ephemeral,
                now,
            );
            (noise_result(reply), with_session(ready, peer_id, session))
        },
        Err(error) => (Err(EncryptionError::NoiseProtocolError(error)), ready),
    }
}

/// Whether messages for a peer go through a Noise session.
pub open spec fn uses_noise(s: Service, peer_id: Seq<char>) -> bool {
    type_of(s, peer_id) == Some(EncryptionType::Noise) && established_with(s.noise, peer_id)
}

/// Whether messages for a peer can be encrypted, one way or the other.
pub open spec fn has_key(s: Service, peer_id: Seq<char>) -> bool {
    established_with(s.noise, peer_id) || s.shared_secrets.contains_key(peer_id)
}

/// How many bytes encrypting for a peer adds: the tag of a Noise session, or a nonce and a tag.
pub open spec fn overhead(s: Service, peer_id: Seq<char>) -> nat {
    if uses_noise(s, peer_id) {
        16
    } else {
        28
    }
}

/// The longest message that can be encrypted for a peer.
pub open spec fn longest_message(s: Service, peer_id: Seq<char>) -> nat {
    if uses_noise(s, peer_id) {
        CHACHA_MAX_PLAINTEXT as nat
    } else {
        AES_MAX_PLAINTEXT as nat
    }
}

/// A message of `len` bytes for a peer that goes through a Noise session is one that the session
/// can take.
pub open spec fn noise_can_send(s: Service, peer_id: Seq<char>, len: nat) -> bool {
    uses_noise(s, peer_id) ==> {
        let session = s.noise.sessions[peer_id];
        can_send(session) && (session.send is Some ==> chacha_returns(len as int))
    }
}

/// A message of `len` bytes from a peer that goes through a Noise session is one that the session
/// can take.
pub open spec fn noise_can_receive(s: Service, peer_id: Seq<char>, len: nat) -> bool {
    uses_noise(s, peer_id) ==> {
        let session = s.noise.sessions[peer_id];
        can_receive(session) && (session.recv is Some ==> chacha_returns(len - 16))
    }
}

/// A handshake message of `len` bytes from a peer is one that the session with it can take.
pub open spec fn noise_can_process(s: Service, peer_id: Seq<char>, len: nat) -> bool {
    s.noise.sessions.contains_key(peer_id) ==> process_returns(s.noise.sessions[peer_id], len)
}

/// What AES-GCM makes of data, with the nonce in front.
pub open spec fn keyed_seal(key: Seq<u8>, data: Seq<u8>, nonce: Seq<u8>) -> Result<
    Seq<u8>,
    EncryptionError,
> {
    if data.len() <= AES_MAX_PLAINTEXT {
        Ok(nonce + aes_sealed(key, nonce, data))
    } else {
        Err(EncryptionError::EncryptionFailed)
    }
}

/// What AES-GCM finds in data with the nonce in front.
pub open spec fn keyed_open(key: Seq<u8>, data: Seq<u8>) -> Result<Seq<u8>, EncryptionError> {
    if data.len() < 12 {
        Err(EncryptionError::DecryptionFailed)
    } else {
        match aes_opened(key, data.subrange(0, 12), data.subrange(12, data.len() as int)) {
            Some(p) => Ok(p),
            None => Err(EncryptionError::DecryptionFailed),
        }
    }
}

/// `data` is `p` encrypted under `key`; of a message that is longer than any that can be encrypted
/// nothing is said.
pub open spec fn sealed_as(key: Seq<u8>, p: Seq<u8>, data: Seq<u8>) -> bool {
    p.len() <= AES_MAX_PLAINTEXT ==> data.len() >= 12 && keyed_seal(
        key,
        p,
        data.subrange(0, 12),
    ) == Ok::<Seq<u8>, EncryptionError>(data)
}

/// Encrypting under the secret that is shared with a peer.
pub open spec fn legacy_seal(
    s: Service,
    data: Seq<u8>,
    peer_id: Seq<char>,
    nonce: Seq<u8>,
) -> Result<Seq<u8>, EncryptionError> {
    if s.shared_secrets.contains_key(peer_id) {
        keyed_seal(s.shared_secrets[peer_id], data, nonce)
    } else {
        Err(EncryptionError::NoSharedSecret)
    }
}

/// Decrypting under the secret that is shared with a peer.
pub open spec fn legacy_open(s: Service, data: Seq<u8>, peer_id: Seq<char>) -> Result<
    Seq<u8>,
    EncryptionError,
> {
    if data.len() < 12 {
        Err(EncryptionError::DecryptionFailed)
    } else if s.shared_secrets.contains_key(peer_id) {
        keyed_open(s.shared_secrets[peer_id], data)
    } else {
        Err(EncryptionError::NoSharedSecret)
    }
}

/// Encrypting for a peer at the time `now`; where AES-GCM does it, under `nonce`.
pub open spec fn encrypt_step(
    s: Service,
    data: Seq<u8>,
    peer_id: Seq<char>,
    nonce: Seq<u8>,
    now: u128,
) -> (Result<Seq<u8>, EncryptionError>, Service) {
    if uses_noise(s, peer_id) {
        let (r, session) = session_seal(s.noise.sessions[peer_id], data, now);
        (noise_result(r), with_session(s, peer_id, session))
    } else {
        (legacy_seal(s, data, peer_id, nonce), s)
    }
}

/// Decrypting what came from a peer at the time `now`.
pub open spec fn decrypt_step(s: Service, data: Seq<u8>, peer_id: Seq<char>, now: u128) -> (
    Result<Seq<u8>, EncryptionError>,
    Service,
) {
    if uses_noise(s, peer_id) {
        let (r, session) = session_open(s.noise.sessions[peer_id], data, now);
        (noise_result(r), with_session(s, peer_id, session))
    } else {
        (legacy_open(s, data, peer_id), s)
    }
}

/// What `a` encrypts for the peer that it calls `b_id` is for `b` to decrypt, who calls `a` by
/// `a_id`: both go through a Noise session, and one's sending cipher is the other's receiving one,
/// or neither does, and they share a secret.
pub open spec fn linked(a: Service, b_id: Seq<char>, b: Service, a_id: Seq<char>) -> bool {
    &&& uses_noise(a, b_id) == uses_noise(b, a_id)
    &&& uses_noise(a, b_id) ==> a.noise.sessions[b_id].send == b.noise.sessions[a_id].recv
    &&& !uses_noise(a, b_id) ==> {
        &&& a.shared_secrets.contains_key(b_id)
        &&& b.shared_secrets.contains_key(a_id)
        &&& a.shared_secrets[b_id] == b.shared_secrets[a_id]
    }
}

/// The fingerprint of a peer: that of its Noise static key if it is known, else that of its
/// identity key.
pub open spec fn peer_fingerprint(s: Service, peer_id: Seq<char>) -> Option<Seq<char>> {
    if type_of(s, peer_id) == Some(EncryptionType::Noise) && s.noise.sessions.contains_key(peer_id)
        && s.noise.sessions[peer_id].remote_static_key is Some {
        Some(fingerprint(s.noise.sessions[peer_id].remote_static_key->0))
    } else if s.peer_identity_keys.contains_key(peer_id) {
        Some(fingerprint(s.peer_identity_keys[peer_id]))
    } else {
        None
    }
}

/// `signature` is what `signer` makes of `data`, and `s` knows the signer's key as that of the peer
/// `peer_id`. The point that the signature begins with is not the identity.
pub open spec fn signed_by(
    signer: Service,
    s: Service,
    peer_id: Seq<char>,
    data: Seq<u8>,
    signature: Seq<u8>,
) -> bool {
    &&& signer.signing_seed.len() == 32
    &&& s.peer_signing_keys.contains_key(peer_id)
    &&& s.peer_signing_keys[peer_id] == ed25519_public(signer.signing_seed)
    &&& signature.len() == 64
    &&& signature == ed25519_signature(signer.signing_seed, data)
    &&& signature.subrange(0, 32) != ed25519_identity()
}

/// Whether the encryption that a peer's type asks for is ready.
pub open spec fn ready(s: Service, peer_id: Seq<char>) -> bool {
    match s.types[peer_id] {
        EncryptionType::Noise => established_with(s.noise, peer_id),
        EncryptionType::Legacy => s.shared_secrets.contains_key(peer_id),
    }
}

/// The encryption status of every peer: its id, its type, and whether that is ready.
pub open spec fn status(s: Service) -> Seq<(Seq<char>, EncryptionType, bool)> {
    Seq::new(s.peers.len(), |i: int| (s.peers[i], s.types[s.peers[i]], ready(s, s.peers[i])))
}

/// The service after the session with a peer was ended for the sake of legacy encryption.
pub open spec fn retire(s: Service, peer_id: Seq<char>) -> Service {
    with_type(
        Service { noise: without_session(s.noise, peer_id), ..s },
        peer_id,
        EncryptionType::Legacy,
    )
}

/// The service after the sessions with several peers were ended.
pub open spec fn retire_all(s: Service, peer_ids: Seq<Seq<char>>) -> Service
    decreases peer_ids.len(),
{
    if peer_ids.len() == 0 {
        s
    } else {
        retire(retire_all(s, peer_ids.drop_last()), peer_ids.last())
    }
}

/// Ending the sessions that need rekeying, where their clocks show the given times.
pub open spec fn cleanup_step(s: Service, nows: Seq<u128>) -> Service {
    retire_all(s, due_peers(s.noise, nows))
}

} // verus!
