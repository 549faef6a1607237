//! What holds of the peers that a service knows.

use vstd::prelude::*;
use vstd::utf8::encode_utf8;

use crate::bytes::hex_lower;
use crate::encryption::model::{
    add_peer_step, cleanup_step, combined_keys, handshake_step, handshake_with, initiate_step,
    legacy_keys, peer_fingerprint, reading_session, ready, retire_all, service_initial, status,
    type_of, EncryptionError, EncryptionType, Service,
};
use crate::noise_encryption::handshake::{initial, write_step, NoiseError, NoiseRole};
use crate::noise_encryption::manager::{create_step, due_peers, Sessions};
use crate::noise_encryption::session::{process_step, session_initial, start_step, Session};
use crate::primitives::{
    ed25519_decodes, ed25519_public, hkdf_sha256_okm, sha256_digest, x25519_public, x25519_shared,
};
use crate::table::keys_without;

verus! {

/// A new service knows nobody.
pub proof fn new_services_know_nobody(
    private_key: Seq<u8>,
    signing_seed: Seq<u8>,
    identity_seed: Seq<u8>,
    noise: Sessions,
    prefer_noise: bool,
    peer: Seq<char>,
)
    ensures
        ({
            let s = service_initial(private_key, signing_seed, identity_seed, noise, prefer_noise);
            &&& s.private_key == private_key
            &&& s.signing_seed == signing_seed
            &&& s.identity_seed == identity_seed
            &&& s.noise == noise
            &&& s.prefer_noise == prefer_noise
            &&& s.peers.len() == 0
            &&& !s.types.contains_key(peer)
            &&& !s.shared_secrets.contains_key(peer)
            &&& !s.peer_public_keys.contains_key(peer)
            &&& !s.peer_signing_keys.contains_key(peer)
            &&& !s.peer_identity_keys.contains_key(peer)
            &&& type_of(s, peer) is None
        }),
{
}

/// Key data is encryption key, signing key and identity key, in this order, and where Noise is
/// supported the static key behind them.
pub proof fn key_data_has_its_keys_in_order(s: Service)
    ensures
        legacy_keys(s) == x25519_public(s.private_key) + ed25519_public(s.signing_seed)
            + ed25519_public(s.identity_seed),
        combined_keys(s) == x25519_public(s.private_key) + ed25519_public(s.signing_seed)
            + ed25519_public(s.identity_seed) + x25519_public(s.noise.local_static),
{
}

/// A peer is added with the keys in its key data and the secret that the first of them and ours
/// agree on. An identity key that is none is replaced by the signing key. The type is Noise exactly
/// where the data has room for a static key, Noise is preferred, and a session could be begun.
pub proof fn peers_are_added_with_their_keys(
    s: Service,
    peer: Seq<char>,
    key: Seq<u8>,
    signing: Seq<u8>,
    identity: Seq<u8>,
    noise_static: Seq<u8>,
    now: u128,
)
    requires
        key.len() == 32,
        signing.len() == 32,
        identity.len() == 32,
        noise_static.len() == 0 || noise_static.len() == 32,
        ed25519_decodes(signing),
    ensures
        ({
            let (r, after) = add_peer_step(s, peer, key + signing + identity + noise_static, now);
            let begun = create_step(s.noise, peer, NoiseRole::Initiator, now);
            &&& r is Ok
            &&& after.peer_public_keys == s.peer_public_keys.insert(peer, key)
            &&& after.peer_signing_keys == s.peer_signing_keys.insert(peer, signing)
            &&& after.peer_identity_keys == s.peer_identity_keys.insert(
                peer,
                if ed25519_decodes(identity) {
                    identity
                } else {
                    signing
                },
            )
            &&& after.shared_secrets == s.shared_secrets.insert(
                peer,
                hkdf_sha256_okm(
                    encode_utf8("bitchat-v1"@),
                    x25519_shared(s.private_key, key),
                    Seq::<u8>::empty(),
                    32,
                ),
            )
            &&& after.types == s.types.insert(
                peer,
                if noise_static.len() == 32 && s.prefer_noise && begun.0 is Ok {
                    EncryptionType::Noise
                } else {
                    EncryptionType::Legacy
                },
            )
            &&& after.noise == (if noise_static.len() == 32 && s.prefer_noise {
                begun.1
            } else {
                s.noise
            })
            &&& after.peers == (if s.peers.contains(peer) {
                s.peers
            } else {
                s.peers.push(peer)
            })
            &&& after.private_key == s.private_key
            &&& after.signing_seed == s.signing_seed
            &&& after.identity_seed == s.identity_seed
            &&& after.prefer_noise == s.prefer_noise
        }),
{
    let data = key + signing + identity + noise_static;
    assert(data.subrange(0, 32) =~= key);
    assert(data.subrange(32, 64) =~= signing);
    assert(data.subrange(64, 96) =~= identity);
}

/// A handshake is written only for a Noise peer. Where there is a session, it writes the next message;
/// where there is none, a new one does, as the initiator, unless too many were begun lately.
pub proof fn handshakes_are_written_for_noise_peers(
    s: Service,
    peer: Seq<char>,
    ephemeral: Seq<u8>,
    now: u128,
)
    ensures
        ({
            let (r, after) = initiate_step(s, peer, ephemeral, now);
            let noise = s.types.contains_key(peer) && s.types[peer] == EncryptionType::Noise;
            let begun = create_step(s.noise, peer, NoiseRole::Initiator, now);
            &&& !noise ==> r == Err::<Seq<u8>, EncryptionError>(EncryptionError::NoSharedSecret)
                && after == s
            &&& noise && s.noise.sessions.contains_key(peer) ==> {
                let (written, session) = start_step(s.noise.sessions[peer], ephemeral, now);
                &&& r == (match written {
                    Ok(message) => Ok::<Seq<u8>, EncryptionError>(message),
                    Err(e) => Err(EncryptionError::NoiseProtocolError(e)),
                })
                &&& after == (Service {
                    noise: Sessions {
                        sessions: s.noise.sessions.insert(peer, session),
                        ..s.noise
                    },
                    ..s
                })
            }
            &&& noise && !s.noise.sessions.contains_key(peer) && begun.0 is Ok ==> {
                &&& r == Ok::<Seq<u8>, EncryptionError>(x25519_public(ephemeral))
                &&& after == (Service {
                    noise: Sessions {
                        sessions: begun.1.sessions.insert(
                            peer,
                            Session {
                                handshake: Some(
                                    write_step(
                                        initial(NoiseRole::Initiator, s.noise.local_static),
                                        ephemeral,
                                    ).1,
                                ),
                                ..session_initial(
                                    peer,
                                    NoiseRole::Initiator,
                                    s.noise.local_static,
                                    now,
                                )
                            },
                        ),
                        ..begun.1
                    },
                    ..s
                })
            }
            &&& noise && !s.noise.sessions.contains_key(peer) && begun.0 is Err ==> {
                &&& r == Err::<Seq<u8>, EncryptionError>(
                    EncryptionError::NoiseProtocolError(NoiseError::RateLimitExceeded),
                )
                &&& after == (Service { noise: begun.1, ..s })
            }
        }),
{
}

/// A handshake message is read by the session with the peer that it came from. Where there is none, a
/// new one reads it, as the responder, and the peer becomes a Noise peer, unless too many sessions
/// were begun lately.
pub proof fn handshakes_are_read_from_anybody(
    s: Service,
    peer: Seq<char>,
    message: Seq<u8>,
    ephemeral: Seq<u8>,
    now: u128,
)
    ensures
        ({
            let (r, after) = handshake_step(s, peer, message, ephemeral, now);
            let begun = create_step(s.noise, peer, NoiseRole::Responder, now);
            &&& s.noise.sessions.contains_key(peer) ==> {
                let (reply, session) = process_step(
                    s.noise.sessions[peer],
                    message,
                    ephemeral,
                    now,
                );
                &&& r == (match reply {
                    Ok(answer) => Ok::<Option<Seq<u8>>, EncryptionError>(answer),
                    Err(e) => Err(EncryptionError::NoiseProtocolError(e)),
                })
                &&& after == (Service {
                    noise: Sessions {
                        sessions: s.noise.sessions.insert(peer, session),
                        ..s.noise
                    },
                    ..s
                })
            }
            &&& !s.noise.sessions.contains_key(peer) && begun.0 is Ok ==> {
                let (reply, session) = process_step(
                    session_initial(peer, NoiseRole::Responder, s.noise.local_static, now),
                    message,
                    ephemeral,
                    now,
                );
                &&& r == (match reply {
                    Ok(answer) => Ok::<Option<Seq<u8>>, EncryptionError>(answer),
                    Err(e) => Err(EncryptionError::NoiseProtocolError(e)),
                })
                &&& after == (Service {
                    noise: Sessions {
                        sessions: begun.1.sessions.insert(peer, session),
                        ..begun.1
                    },
                    types: s.types.insert(peer, EncryptionType::Noise),
                    peers: if s.peers.contains(peer) {
                        s.peers
                    } else {
                        s.peers.push(peer)
                    },
                    ..s
                })
            }
            &&& !s.noise.sessions.contains_key(peer) && begun.0 is Err ==> {
                &&& r == Err::<Option<Seq<u8>>, EncryptionError>(
                    EncryptionError::NoiseProtocolError(NoiseError::RateLimitExceeded),
                )
                &&& after == (Service { noise: begun.1, ..s })
            }
        }),
{
}

/// Which session reads a handshake message from a peer, and which handshake writes the next one for
/// it: the ones that are there, or new ones.
pub proof fn sessions_are_begun_where_there_are_none(s: Service, peer: Seq<char>, now: u128)
    ensures
        s.noise.sessions.contains_key(peer) ==> reading_session(s, peer, now) == Some(
            s.noise.sessions[peer],
        ) && handshake_with(s, peer) == s.noise.sessions[peer].handshake->0,
        !s.noise.sessions.contains_key(peer) ==> handshake_with(s, peer) == initial(
            NoiseRole::Initiator,
            s.noise.local_static,
        ),
        !s.noise.sessions.contains_key(peer) ==> (reading_session(s, peer, now) is Some
            <==> create_step(s.noise, peer, NoiseRole::Responder, now).0 is Ok),
        !s.noise.sessions.contains_key(peer) && reading_session(s, peer, now) is Some
            ==> reading_session(s, peer, now)->0 == create_step(
            s.noise,
            peer,
            NoiseRole::Responder,
            now,
        ).1.sessions[peer],
{
}

/// The fingerprint of a Noise peer is that of its static key as soon as the session knows it; that of
/// every other peer is the fingerprint of its identity key; a stranger has none. It is the first
/// half of the key's digest, in hexadecimal.
pub proof fn fingerprints_tell_peers_apart(s: Service, peer: Seq<char>)
    ensures
        ({
            let by_noise = s.types.contains_key(peer) && s.types[peer] == EncryptionType::Noise
                && s.noise.sessions.contains_key(peer)
                && s.noise.sessions[peer].remote_static_key is Some;
            &&& by_noise ==> peer_fingerprint(s, peer) == Some(
                hex_lower(
                    sha256_digest(s.noise.sessions[peer].remote_static_key->0).subrange(0, 16),
                ),
            )
            &&& !by_noise && s.peer_identity_keys.contains_key(peer) ==> peer_fingerprint(s, peer)
                == Some(hex_lower(sha256_digest(s.peer_identity_keys[peer]).subrange(0, 16)))
            &&& !by_noise && !s.peer_identity_keys.contains_key(peer) ==> peer_fingerprint(
                s,
                peer,
            ) is None
        }),
{
}

/// The status lists the peers in the order in which they became known, each with its type; a Noise
/// peer is ready once its session is established, every other one once there is a shared secret.
pub proof fn the_status_lists_every_peer(s: Service, i: int)
    ensures
        status(s).len() == s.peers.len(),
        0 <= i < s.peers.len() ==> status(s)[i].0 == s.peers[i] && status(s)[i].1
            == s.types[s.peers[i]],
        0 <= i < s.peers.len() && s.types[s.peers[i]] == EncryptionType::Noise ==> status(s)[i].2
            == (s.noise.sessions.contains_key(s.peers[i])
            && s.noise.sessions[s.peers[i]].established),
        0 <= i < s.peers.len() && s.types[s.peers[i]] == EncryptionType::Legacy ==> status(s)[i].2
            == s.shared_secrets.contains_key(s.peers[i]),
        0 <= i < s.peers.len() ==> ready(s, s.peers[i]) == status(s)[i].2,
{
}

/// Sessions are ended one after the other; each one that is ended is taken out, and its peer becomes
/// a legacy peer and keeps its keys.
pub proof fn sessions_are_ended_one_by_one(
    s: Service,
    list: Seq<Seq<char>>,
    peer: Seq<char>,
    nows: Seq<u128>,
)
    ensures
        retire_all(s, Seq::empty()) == s,
        retire_all(s, list.push(peer)).noise.sessions == retire_all(
            s,
            list,
        ).noise.sessions.remove(peer),
        retire_all(s, list.push(peer)).types == retire_all(s, list).types.insert(
            peer,
            EncryptionType::Legacy,
        ),
        retire_all(s, list.push(peer)).noise.peers == keys_without(
            retire_all(s, list).noise.peers,
            peer,
        ),
        retire_all(s, list.push(peer)).peers == (if retire_all(s, list).peers.contains(peer) {
            retire_all(s, list).peers
        } else {
            retire_all(s, list).peers.push(peer)
        }),
        retire_all(s, list.push(peer)).shared_secrets == retire_all(s, list).shared_secrets,
        retire_all(s, list.push(peer)).peer_identity_keys == retire_all(
            s,
            list,
        ).peer_identity_keys,
        retire_all(s, list.push(peer)).peer_signing_keys == retire_all(s, list).peer_signing_keys,
        retire_all(s, list.push(peer)).peer_public_keys == retire_all(s, list).peer_public_keys,
        retire_all(s, list.push(peer)).noise.attempts == retire_all(s, list).noise.attempts,
        cleanup_step(s, nows) == retire_all(s, due_peers(s.noise, nows)),
{
    assert(list.push(peer).drop_last() =~= list);
}

} // verus!
