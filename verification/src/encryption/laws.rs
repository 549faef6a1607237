//! What holds of the encryption service across its operations.

pub mod messages;
pub mod peers;

use vstd::prelude::*;

use crate::encryption::model::{
    add_peer_step, agrees_with_owner, cleanup_step, decrypt_step, encrypt_step, handshake_step,
    has_key, initiate_step, legacy_keys, linked, longest_message, noise_can_send, retire_all,
    service_initial, type_of, uses_noise, EncryptionError, EncryptionType, Service,
};
use crate::noise_encryption::handshake::NoiseRole;
use crate::noise_encryption::manager::{
    all_at, attempts_of, due_among, due_peers, sessions_initial, Sessions,
};
use crate::noise_encryption::session::{
    needs_rekey, session_initial, session_valid, sessions_stay_valid,
};
use crate::primitives::{ed25519_decodes, ed25519_public, x25519_public};

verus! {

/// What holds of the keys of every service.
pub open spec fn service_valid(s: Service) -> bool {
    &&& s.private_key.len() == 32
    &&& s.signing_seed.len() == 32
    &&& s.identity_seed.len() == 32
    &&& s.noise.local_static.len() == 32
    &&& x25519_public(s.private_key).len() == 32
    &&& ed25519_public(s.signing_seed).len() == 32
    &&& ed25519_public(s.identity_seed).len() == 32
    &&& ed25519_decodes(ed25519_public(s.signing_seed))
    &&& ed25519_decodes(ed25519_public(s.identity_seed))
}

/// What holds of a peer with a session: the session is valid, and where the peer's type keeps it
/// from being used there is a shared secret.
pub open spec fn peer_reachable(s: Service, peer: Seq<char>) -> bool {
    s.noise.sessions.contains_key(peer) ==> {
        &&& session_valid(s.noise.sessions[peer])
        &&& type_of(s, peer) != Some(EncryptionType::Noise) ==> s.shared_secrets.contains_key(peer)
    }
}

/// What holds of the peers of every service.
pub open spec fn service_reachable(s: Service) -> bool {
    forall|peer: Seq<char>| #[trigger] peer_reachable(s, peer)
}

/// A service that knows no peer is reachable.
pub proof fn initial_services_are_reachable(
    private_key: Seq<u8>,
    signing_seed: Seq<u8>,
    identity_seed: Seq<u8>,
    noise_static: Seq<u8>,
    prefer_noise: bool,
)
    ensures
        service_reachable(
            service_initial(
                private_key,
                signing_seed,
                identity_seed,
                sessions_initial(noise_static),
                prefer_noise,
            ),
        ),
{
}

proof fn lemma_peer_stays_reachable(
    s: Service,
    peer: Seq<char>,
    bytes: Seq<u8>,
    random: Seq<u8>,
    now: u128,
    p: Seq<char>,
)
    requires
        peer_reachable(s, p),
    ensures
        peer_reachable(add_peer_step(s, peer, bytes, now).1, p),
        peer_reachable(initiate_step(s, peer, random, now).1, p),
        peer_reachable(handshake_step(s, peer, bytes, random, now).1, p),
        noise_can_send(s, peer, bytes.len()) ==> peer_reachable(
            encrypt_step(s, bytes, peer, random, now).1,
            p,
        ),
        peer_reachable(decrypt_step(s, bytes, peer, now).1, p),
{
    if p != peer {
        operations_concern_one_peer(s, peer, bytes, random, now, p);
    } else {
        let begun = session_initial(p, NoiseRole::Initiator, s.noise.local_static, now);
        let answered = session_initial(p, NoiseRole::Responder, s.noise.local_static, now);
        sessions_stay_valid(begun, bytes, random, now);
        sessions_stay_valid(answered, bytes, random, now);
        if s.noise.sessions.contains_key(p) {
            sessions_stay_valid(s.noise.sessions[p], bytes, random, now);
        }
    }
}

/// Whatever is done for a peer, a service stays reachable.
pub proof fn services_stay_reachable(
    s: Service,
    peer: Seq<char>,
    bytes: Seq<u8>,
    random: Seq<u8>,
    now: u128,
)
    requires
        service_reachable(s),
    ensures
        service_reachable(add_peer_step(s, peer, bytes, now).1),
        service_reachable(initiate_step(s, peer, random, now).1),
        service_reachable(handshake_step(s, peer, bytes, random, now).1),
        noise_can_send(s, peer, bytes.len()) ==> service_reachable(
            encrypt_step(s, bytes, peer, random, now).1,
        ),
        service_reachable(decrypt_step(s, bytes, peer, now).1),
{
    let added = add_peer_step(s, peer, bytes, now).1;
    let begun = initiate_step(s, peer, random, now).1;
    let answered = handshake_step(s, peer, bytes, random, now).1;
    let sent = encrypt_step(s, bytes, peer, random, now).1;
    let received = decrypt_step(s, bytes, peer, now).1;
    assert forall|p: Seq<char>|
        #![trigger peer_reachable(added, p)]
        #![trigger peer_reachable(begun, p)]
        #![trigger peer_reachable(answered, p)]
        #![trigger peer_reachable(sent, p)]
        #![trigger peer_reachable(received, p)]
        peer_reachable(added, p) && peer_reachable(begun, p) && peer_reachable(answered, p) && (
        noise_can_send(s, peer, bytes.len()) ==> peer_reachable(sent, p)) && peer_reachable(
            received,
            p,
        ) by {
        assert(peer_reachable(s, p));
        lemma_peer_stays_reachable(s, peer, bytes, random, now, p);
    }
}

/// A cleanup leaves a service reachable.
pub proof fn cleanups_stay_reachable(s: Service, nows: Seq<u128>)
    requires
        service_reachable(s),
    ensures
        service_reachable(cleanup_step(s, nows)),
{
    assert forall|p: Seq<char>| #[trigger] peer_reachable(cleanup_step(s, nows), p) by {
        assert(peer_reachable(s, p));
        lemma_retire_all(s, due_peers(s.noise, nows), p);
    }
}

/// Data is encrypted for a peer exactly when there is a key for it and the data is not too long;
/// without a key the refusal says so and changes nothing.
pub proof fn a_key_is_all_it_takes(
    s: Service,
    data: Seq<u8>,
    peer: Seq<char>,
    nonce: Seq<u8>,
    now: u128,
)
    requires
        service_reachable(s),
    ensures
        encrypt_step(s, data, peer, nonce, now).0 is Ok <==> has_key(s, peer) && data.len()
            <= longest_message(s, peer),
        !has_key(s, peer) ==> encrypt_step(s, data, peer, nonce, now) == (
            Err::<Seq<u8>, EncryptionError>(EncryptionError::NoSharedSecret),
            s,
        ),
{
    assert(peer_reachable(s, peer));
}

/// Key data of a service, with or without Noise support.
pub open spec fn is_key_data(s: Service, data: Seq<u8>) -> bool {
    &&& data.len() == 96 || data.len() == 128
    &&& data.subrange(0, 96) == legacy_keys(s)
}

/// The key data of a service is accepted by every other one, which then knows its keys.
pub proof fn key_data_is_accepted(
    s: Service,
    b: Service,
    peer_id: Seq<char>,
    data: Seq<u8>,
    now: u128,
)
    requires
        service_valid(b),
        is_key_data(b, data),
    ensures
        ({
            let (r, after) = add_peer_step(s, peer_id, data, now);
            &&& r is Ok
            &&& after.peer_public_keys[peer_id] == x25519_public(b.private_key)
            &&& after.peer_signing_keys[peer_id] == ed25519_public(b.signing_seed)
            &&& after.peer_identity_keys[peer_id] == ed25519_public(b.identity_seed)
        }),
{
    let keys = legacy_keys(b);
    assert(data.subrange(0, 32) =~= keys.subrange(0, 32));
    assert(data.subrange(32, 64) =~= keys.subrange(32, 64));
    assert(data.subrange(64, 96) =~= keys.subrange(64, 96));
    assert(keys.subrange(0, 32) =~= x25519_public(b.private_key));
    assert(keys.subrange(32, 64) =~= ed25519_public(b.signing_seed));
    assert(keys.subrange(64, 96) =~= ed25519_public(b.identity_seed));
}

/// Key data that is refused changes nothing; and it is refused exactly when it has the wrong
/// length or its signing key is none.
pub proof fn refused_key_data_changes_nothing(
    s: Service,
    peer_id: Seq<char>,
    data: Seq<u8>,
    now: u128,
)
    ensures
        add_peer_step(s, peer_id, data, now).0 is Err <==> (data.len() != 96 && data.len() != 128
            || !ed25519_decodes(data.subrange(32, 64))),
        add_peer_step(s, peer_id, data, now).0 is Err ==> add_peer_step(s, peer_id, data, now) == (
            Err::<(), EncryptionError>(EncryptionError::InvalidPublicKey),
            s,
        ),
{
}

/// A peer that was just added is talked to under the shared secret: whatever its type, there is no
/// established session yet.
pub proof fn added_peers_start_with_the_shared_secret(
    s: Service,
    peer_id: Seq<char>,
    data: Seq<u8>,
    now: u128,
)
    requires
        add_peer_step(s, peer_id, data, now).0 is Ok,
    ensures
        !uses_noise(add_peer_step(s, peer_id, data, now).1, peer_id),
        add_peer_step(s, peer_id, data, now).1.shared_secrets.contains_key(peer_id),
{
}

/// When two services have added each other, each is linked to the other.
pub(crate) proof fn lemma_exchange(
    a: Service,
    b_id: Seq<char>,
    b_data: Seq<u8>,
    a_now: u128,
    b: Service,
    a_id: Seq<char>,
    a_data: Seq<u8>,
    b_now: u128,
)
    requires
        service_valid(a),
        service_valid(b),
        is_key_data(a, a_data),
        is_key_data(b, b_data),
        agrees_with_owner(a.private_key, b_data.subrange(0, 32)),
    ensures
        add_peer_step(a, b_id, b_data, a_now).0 is Ok,
        add_peer_step(b, a_id, a_data, b_now).0 is Ok,
        linked(
            add_peer_step(a, b_id, b_data, a_now).1,
            b_id,
            add_peer_step(b, a_id, a_data, b_now).1,
            a_id,
        ),
        linked(
            add_peer_step(b, a_id, a_data, b_now).1,
            a_id,
            add_peer_step(a, b_id, b_data, a_now).1,
            b_id,
        ),
{
    key_data_is_accepted(a, b, b_id, b_data, a_now);
    key_data_is_accepted(b, a, a_id, a_data, b_now);
    added_peers_start_with_the_shared_secret(a, b_id, b_data, a_now);
    added_peers_start_with_the_shared_secret(b, a_id, a_data, b_now);
    assert(b_data.subrange(0, 32) == x25519_public(b.private_key));
    assert(a_data.subrange(0, 32) == x25519_public(a.private_key));
}

/// `after` has the same secrets as `before`.
pub open spec fn same_secrets(before: Service, after: Service) -> bool {
    &&& after.private_key == before.private_key
    &&& after.signing_seed == before.signing_seed
    &&& after.identity_seed == before.identity_seed
    &&& after.noise.local_static == before.noise.local_static
    &&& after.prefer_noise == before.prefer_noise
}

/// `after` holds the same of a peer as `before`.
pub open spec fn same_peer(before: Service, after: Service, peer: Seq<char>) -> bool {
    &&& type_of(after, peer) == type_of(before, peer)
    &&& after.shared_secrets.contains_key(peer) == before.shared_secrets.contains_key(peer)
    &&& after.shared_secrets[peer] == before.shared_secrets[peer]
    &&& after.peer_signing_keys.contains_key(peer) == before.peer_signing_keys.contains_key(peer)
    &&& after.peer_signing_keys[peer] == before.peer_signing_keys[peer]
    &&& after.peer_identity_keys.contains_key(peer) == before.peer_identity_keys.contains_key(peer)
    &&& after.peer_identity_keys[peer] == before.peer_identity_keys[peer]
    &&& after.noise.sessions.contains_key(peer) == before.noise.sessions.contains_key(peer)
    &&& after.noise.sessions[peer] == before.noise.sessions[peer]
    &&& attempts_of(after.noise, peer) == attempts_of(before.noise, peer)
}

/// Whatever is done for one peer, our own secrets stay what they are, and so does all that is held
/// of any other peer.
pub proof fn operations_concern_one_peer(
    s: Service,
    peer: Seq<char>,
    bytes: Seq<u8>,
    random: Seq<u8>,
    now: u128,
    other: Seq<char>,
)
    requires
        other != peer,
    ensures
        same_secrets(s, add_peer_step(s, peer, bytes, now).1),
        same_secrets(s, initiate_step(s, peer, random, now).1),
        same_secrets(s, handshake_step(s, peer, bytes, random, now).1),
        same_secrets(s, encrypt_step(s, bytes, peer, random, now).1),
        same_secrets(s, decrypt_step(s, bytes, peer, now).1),
        same_peer(s, add_peer_step(s, peer, bytes, now).1, other),
        same_peer(s, initiate_step(s, peer, random, now).1, other),
        same_peer(s, handshake_step(s, peer, bytes, random, now).1, other),
        same_peer(s, encrypt_step(s, bytes, peer, random, now).1, other),
        same_peer(s, decrypt_step(s, bytes, peer, now).1, other),
{
}

/// Whether the session with a peer needs rekeying, where the clocks of the sessions show the given
/// times.
pub open spec fn rekey_due(m: Sessions, nows: Seq<u128>, n: nat, peer: Seq<char>) -> bool {
    exists|i: int|
        0 <= i < n && #[trigger] m.peers[i] == peer && needs_rekey(m.sessions[peer], nows[i])
}

proof fn lemma_due(m: Sessions, nows: Seq<u128>, n: nat, peer: Seq<char>)
    ensures
        due_among(m, nows, n).contains(peer) <==> rekey_due(m, nows, n, peer),
    decreases n,
{
    if n > 0 {
        let head = due_among(m, nows, (n - 1) as nat);
        let last = m.peers[n - 1];
        lemma_due(m, nows, (n - 1) as nat, peer);
        if rekey_due(m, nows, (n - 1) as nat, peer) {
            let i = choose|i: int|
                0 <= i < n - 1 && #[trigger] m.peers[i] == peer && needs_rekey(
                    m.sessions[peer],
                    nows[i],
                );
            assert(m.peers[i] == peer);
        }
        assert(head.push(last).contains(peer) <==> head.contains(peer) || last == peer) by {
            if head.contains(peer) {
                let i = choose|i: int| 0 <= i < head.len() && head[i] == peer;
                assert(head.push(last)[i] == peer);
            }
            if last == peer {
                assert(head.push(last)[head.len() as int] == peer);
            }
        }
    }
}

proof fn lemma_retire_all(s: Service, list: Seq<Seq<char>>, peer: Seq<char>)
    ensures
        ({
            let after = retire_all(s, list);
            &&& same_secrets(s, after)
            &&& after.shared_secrets == s.shared_secrets
            &&& after.noise.attempts == s.noise.attempts
            &&& list.contains(peer) ==> !after.noise.sessions.contains_key(peer) && type_of(
                after,
                peer,
            ) == Some(EncryptionType::Legacy)
            &&& !list.contains(peer) ==> same_peer(s, after, peer)
        }),
    decreases list.len(),
{
    if list.len() > 0 {
        let head = list.drop_last();
        lemma_retire_all(s, head, peer);
        assert(list.contains(peer) <==> head.contains(peer) || list.last() == peer) by {
            if head.contains(peer) {
                let i = choose|i: int| 0 <= i < head.len() && head[i] == peer;
                assert(list[i] == peer);
            }
            if list.last() == peer {
                assert(list[list.len() - 1] == peer);
            }
            if list.contains(peer) && list.last() != peer {
                let i = choose|i: int| 0 <= i < list.len() && list[i] == peer;
                assert(head[i] == peer);
            }
        }
    }
}

/// Where the clocks of all sessions show one time, the sessions that need rekeying are those that
/// need it at that time.
pub proof fn one_time_for_all_sessions(m: Sessions, now: u128, peer: Seq<char>)
    requires
        m.sessions.contains_key(peer) <==> m.peers.contains(peer),
    ensures
        rekey_due(m, all_at(m, now), m.peers.len(), peer) <==> m.sessions.contains_key(peer)
            && needs_rekey(m.sessions[peer], now),
{
    if m.peers.contains(peer) {
        let i = choose|i: int| 0 <= i < m.peers.len() && m.peers[i] == peer;
        assert(m.peers[i] == peer && all_at(m, now)[i] == now);
    }
}

/// A cleanup ends exactly the sessions that need rekeying: their peers fall back to legacy
/// encryption, and keep the secret they share with us. Of all other peers it changes nothing.
pub proof fn cleanup_ends_what_rekey_due(s: Service, nows: Seq<u128>, peer: Seq<char>)
    ensures
        ({
            let after = cleanup_step(s, nows);
            let due = rekey_due(s.noise, nows, s.noise.peers.len(), peer);
            &&& same_secrets(s, after)
            &&& after.shared_secrets == s.shared_secrets
            &&& due ==> !after.noise.sessions.contains_key(peer)
            &&& due ==> type_of(after, peer) == Some(EncryptionType::Legacy)
            &&& due ==> !uses_noise(after, peer)
            &&& !due ==> same_peer(s, after, peer)
        }),
{
    lemma_due(s.noise, nows, s.noise.peers.len(), peer);
    lemma_retire_all(s, due_peers(s.noise, nows), peer);
}

} // verus!
