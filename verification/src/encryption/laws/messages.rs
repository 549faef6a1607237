//! What holds of the messages between two services.

use vstd::bytes::spec_u64_to_le_bytes;
use vstd::prelude::*;

use crate::encryption::model::{
    decrypt_step, encrypt_step, has_key, keyed_open, keyed_seal, linked, longest_message,
    noise_can_process, noise_can_receive, noise_can_send, overhead, type_of, EncryptionError,
    EncryptionType, Service,
};
use crate::noise_encryption::cipher::Cipher;
use crate::noise_encryption::handshake::{split_ciphers, Handshake, NoiseError, NoiseRole};
use crate::noise_encryption::manager::Sessions;
use crate::noise_encryption::session::{joined, Session};
use crate::primitives::{
    aes_opened, aes_sealed, chacha_opened, chacha_sealed, AES_MAX_PLAINTEXT, CHACHA_MAX_PLAINTEXT,
};

verus! {

/// Where a peer's type is Noise and the session with it is established, a message for it is what the
/// session's sending cipher makes of the data, whatever else is known of the peer, a shared secret
/// included. The cipher and the session count it.
pub proof fn established_sessions_encrypt(
    s: Service,
    data: Seq<u8>,
    peer: Seq<char>,
    nonce: Seq<u8>,
    now: u128,
    c: Cipher,
)
    requires
        s.types.contains_key(peer),
        s.types[peer] == EncryptionType::Noise,
        s.noise.sessions.contains_key(peer),
        s.noise.sessions[peer].established,
        s.noise.sessions[peer].send == Some(c),
        c.nonce < u64::MAX,
        s.noise.sessions[peer].message_count < u64::MAX,
    ensures
        data.len() <= CHACHA_MAX_PLAINTEXT ==> encrypt_step(s, data, peer, nonce, now) == (
            Ok::<Seq<u8>, EncryptionError>(
                chacha_sealed(c.key, seq![0u8, 0, 0, 0] + spec_u64_to_le_bytes(c.nonce), data),
            ),
            Service {
                noise: Sessions {
                    sessions: s.noise.sessions.insert(
                        peer,
                        Session {
                            send: Some(Cipher { key: c.key, nonce: (c.nonce + 1) as u64 }),
                            last_activity: now,
                            message_count: (s.noise.sessions[peer].message_count + 1) as u64,
                            ..s.noise.sessions[peer]
                        },
                    ),
                    ..s.noise
                },
                ..s
            },
        ),
        data.len() > CHACHA_MAX_PLAINTEXT ==> encrypt_step(s, data, peer, nonce, now).0 == Err::<
            Seq<u8>,
            EncryptionError,
        >(EncryptionError::NoiseProtocolError(NoiseError::EncryptionFailed)),
{
}

/// Where a peer's type is Noise and the session with it is established, what came from it is what
/// the session's receiving cipher finds in it, whatever else is known of the peer, a shared secret
/// included. The cipher counts it; what the cipher refuses is refused, and counts for nothing.
pub proof fn established_sessions_decrypt(
    s: Service,
    data: Seq<u8>,
    peer: Seq<char>,
    now: u128,
    c: Cipher,
)
    requires
        s.types.contains_key(peer),
        s.types[peer] == EncryptionType::Noise,
        s.noise.sessions.contains_key(peer),
        s.noise.sessions[peer].established,
        s.noise.sessions[peer].recv == Some(c),
        c.nonce < u64::MAX,
    ensures
        match chacha_opened(c.key, seq![0u8, 0, 0, 0] + spec_u64_to_le_bytes(c.nonce), data) {
            Some(p) => decrypt_step(s, data, peer, now) == (
                Ok::<Seq<u8>, EncryptionError>(p),
                Service {
                    noise: Sessions {
                        sessions: s.noise.sessions.insert(
                            peer,
                            Session {
                                recv: Some(Cipher { key: c.key, nonce: (c.nonce + 1) as u64 }),
                                last_activity: now,
                                ..s.noise.sessions[peer]
                            },
                        ),
                        ..s.noise
                    },
                    ..s
                },
            ),
            None => {
                &&& decrypt_step(s, data, peer, now).0 == Err::<Seq<u8>, EncryptionError>(
                    EncryptionError::NoiseProtocolError(NoiseError::DecryptionFailed),
                )
                &&& decrypt_step(s, data, peer, now).1 == s
            },
        },
{
    let after = decrypt_step(s, data, peer, now).1;
    if chacha_opened(c.key, seq![0u8, 0, 0, 0] + spec_u64_to_le_bytes(c.nonce), data) is None {
        assert(after.noise.sessions =~= s.noise.sessions);
    }
}

/// Where a peer's type is not Noise, or the session with it is not established, a message for it is
/// a nonce and what AES-GCM makes of the data under the shared secret; without a secret there is
/// none. Nothing changes by it.
pub proof fn other_messages_go_by_the_shared_secret(
    s: Service,
    data: Seq<u8>,
    peer: Seq<char>,
    nonce: Seq<u8>,
    now: u128,
)
    requires
        !(s.types.contains_key(peer) && s.types[peer] == EncryptionType::Noise
            && s.noise.sessions.contains_key(peer) && s.noise.sessions[peer].established),
    ensures
        encrypt_step(s, data, peer, nonce, now).1 == s,
        !s.shared_secrets.contains_key(peer) ==> encrypt_step(s, data, peer, nonce, now).0 == Err::<
            Seq<u8>,
            EncryptionError,
        >(EncryptionError::NoSharedSecret),
        s.shared_secrets.contains_key(peer) && data.len() <= AES_MAX_PLAINTEXT ==> encrypt_step(
            s,
            data,
            peer,
            nonce,
            now,
        ).0 == Ok::<Seq<u8>, EncryptionError>(
            nonce + aes_sealed(s.shared_secrets[peer], nonce, data),
        ),
        s.shared_secrets.contains_key(peer) && data.len() > AES_MAX_PLAINTEXT ==> encrypt_step(
            s,
            data,
            peer,
            nonce,
            now,
        ).0 == Err::<Seq<u8>, EncryptionError>(EncryptionError::EncryptionFailed),
{
}

/// Where a peer's type is not Noise, or the session with it is not established, what came from it is
/// what AES-GCM finds in it under the shared secret, with the first twelve bytes for the nonce.
/// Nothing changes by it.
pub proof fn other_messages_are_opened_by_the_shared_secret(
    s: Service,
    nonce: Seq<u8>,
    sealed: Seq<u8>,
    short: Seq<u8>,
    peer: Seq<char>,
    now: u128,
)
    requires
        !(s.types.contains_key(peer) && s.types[peer] == EncryptionType::Noise
            && s.noise.sessions.contains_key(peer) && s.noise.sessions[peer].established),
        nonce.len() == 12,
        short.len() < 12,
    ensures
        decrypt_step(s, nonce + sealed, peer, now).1 == s,
        decrypt_step(s, short, peer, now) == (
            Err::<Seq<u8>, EncryptionError>(EncryptionError::DecryptionFailed),
            s,
        ),
        !s.shared_secrets.contains_key(peer) ==> decrypt_step(s, nonce + sealed, peer, now).0
            == Err::<Seq<u8>, EncryptionError>(EncryptionError::NoSharedSecret),
        s.shared_secrets.contains_key(peer) ==> decrypt_step(s, nonce + sealed, peer, now).0 == (
        match aes_opened(s.shared_secrets[peer], nonce, sealed) {
            Some(p) => Ok::<Seq<u8>, EncryptionError>(p),
            None => Err(EncryptionError::DecryptionFailed),
        }),
{
    let data = nonce + sealed;
    assert(data.subrange(0, 12) =~= nonce);
    assert(data.subrange(12, data.len() as int) =~= sealed);
}

/// What is encrypted under a channel's key stands behind its nonce, and is opened from there.
pub proof fn keyed_messages_carry_their_nonce(
    key: Seq<u8>,
    nonce: Seq<u8>,
    data: Seq<u8>,
    sealed: Seq<u8>,
    short: Seq<u8>,
)
    requires
        nonce.len() == 12,
        short.len() < 12,
    ensures
        data.len() <= AES_MAX_PLAINTEXT ==> keyed_seal(key, data, nonce) == Ok::<
            Seq<u8>,
            EncryptionError,
        >(nonce + aes_sealed(key, nonce, data)),
        data.len() > AES_MAX_PLAINTEXT ==> keyed_seal(key, data, nonce) == Err::<
            Seq<u8>,
            EncryptionError,
        >(EncryptionError::EncryptionFailed),
        keyed_open(key, nonce + sealed) == (match aes_opened(key, nonce, sealed) {
            Some(p) => Ok::<Seq<u8>, EncryptionError>(p),
            None => Err(EncryptionError::DecryptionFailed),
        }),
        keyed_open(key, short) == Err::<Seq<u8>, EncryptionError>(
            EncryptionError::DecryptionFailed,
        ),
{
    let message = nonce + sealed;
    assert(message.subrange(0, 12) =~= nonce);
    assert(message.subrange(12, message.len() as int) =~= sealed);
}

/// Two services that know each other as Noise peers, and whose sessions are established with the
/// ciphers of one completed handshake, are linked both ways, whatever secrets they share besides.
/// `w` is the handshake as the side `a` has left it.
pub proof fn completed_handshakes_link_services(
    w: Handshake,
    a: Service,
    b_id: Seq<char>,
    b: Service,
    a_id: Seq<char>,
)
    requires
        w.step == 3,
        a.types.contains_key(b_id),
        a.types[b_id] == EncryptionType::Noise,
        a.noise.sessions.contains_key(b_id),
        a.noise.sessions[b_id].established,
        a.noise.sessions[b_id].send == Some(split_ciphers(w)->Ok_0.0),
        a.noise.sessions[b_id].recv == Some(split_ciphers(w)->Ok_0.1),
        b.types.contains_key(a_id),
        b.types[a_id] == EncryptionType::Noise,
        b.noise.sessions.contains_key(a_id),
        b.noise.sessions[a_id].handshake is None,
        joined(w, b.noise.sessions[a_id]),
    ensures
        linked(a, b_id, b, a_id),
        linked(b, a_id, a, b_id),
        a.noise.sessions[b_id].send == b.noise.sessions[a_id].recv,
        b.noise.sessions[a_id].send == a.noise.sessions[b_id].recv,
{
}

/// Where two services know each other as Noise peers with established sessions, and one's sending
/// cipher is the other's receiving one, what the first encrypts is handed to that very cipher under
/// the same key and number, and both ciphers move on alike, whatever secrets they share besides.
pub proof fn linked_sessions_stay_alike(
    a: Service,
    b_id: Seq<char>,
    b: Service,
    a_id: Seq<char>,
    data: Seq<u8>,
    nonce: Seq<u8>,
    a_now: u128,
    b_now: u128,
    c: Cipher,
)
    requires
        a.types.contains_key(b_id),
        a.types[b_id] == EncryptionType::Noise,
        a.noise.sessions.contains_key(b_id),
        a.noise.sessions[b_id].established,
        a.noise.sessions[b_id].send == Some(c),
        a.noise.sessions[b_id].message_count < u64::MAX,
        b.types.contains_key(a_id),
        b.types[a_id] == EncryptionType::Noise,
        b.noise.sessions.contains_key(a_id),
        b.noise.sessions[a_id].established,
        b.noise.sessions[a_id].recv == Some(c),
        c.nonce < u64::MAX,
        data.len() <= CHACHA_MAX_PLAINTEXT,
        chacha_opened(
            c.key,
            seq![0u8, 0, 0, 0] + spec_u64_to_le_bytes(c.nonce),
            chacha_sealed(c.key, seq![0u8, 0, 0, 0] + spec_u64_to_le_bytes(c.nonce), data),
        ) == Some(data),
    ensures
        encrypt_step(a, data, b_id, nonce, a_now).0 is Ok,
        ({
            let message = encrypt_step(a, data, b_id, nonce, a_now).0->Ok_0;
            let sender = encrypt_step(a, data, b_id, nonce, a_now).1;
            let (found, receiver) = decrypt_step(b, message, a_id, b_now);
            &&& found == Ok::<Seq<u8>, EncryptionError>(data)
            &&& sender.noise.sessions[b_id].send == receiver.noise.sessions[a_id].recv
            &&& linked(sender, b_id, receiver, a_id)
        }),
{
}

/// Messages can be encrypted for a peer with an established session or a shared secret, and for no
/// other. Those that go through a session become a tag longer, the others a nonce and a tag.
pub proof fn keys_and_lengths(s: Service, peer: Seq<char>)
    ensures
        has_key(s, peer) <==> (s.noise.sessions.contains_key(peer)
            && s.noise.sessions[peer].established) || s.shared_secrets.contains_key(peer),
        ({
            let noise = s.types.contains_key(peer) && s.types[peer] == EncryptionType::Noise
                && s.noise.sessions.contains_key(peer) && s.noise.sessions[peer].established;
            &&& noise ==> overhead(s, peer) == 16 && longest_message(s, peer)
                == CHACHA_MAX_PLAINTEXT
            &&& !noise ==> overhead(s, peer) == 12 + 16 && longest_message(s, peer)
                == AES_MAX_PLAINTEXT
        }),
{
}

/// A peer's type is what was noted of it. A message that goes through a session can be sent where its
/// counters have room and the cipher takes the length, and one that came can be read alike; what
/// goes by the shared secret always can.
pub proof fn counters_and_lengths_are_all_that_is_asked(s: Service, peer: Seq<char>, len: nat)
    ensures
        type_of(s, peer) == (if s.types.contains_key(peer) {
            Some(s.types[peer])
        } else {
            None
        }),
        ({
            let noise = s.types.contains_key(peer) && s.types[peer] == EncryptionType::Noise
                && s.noise.sessions.contains_key(peer) && s.noise.sessions[peer].established;
            let session = s.noise.sessions[peer];
            &&& !noise ==> noise_can_send(s, peer, len) && noise_can_receive(s, peer, len)
            &&& noise && session.send is Some ==> (noise_can_send(s, peer, len)
                <==> session.message_count < u64::MAX && session.send->0.nonce < u64::MAX
                && !(274_877_906_816 < len < 274_877_906_880))
            &&& noise && session.recv is Some ==> (noise_can_receive(s, peer, len)
                <==> session.recv->0.nonce < u64::MAX && !(274_877_906_832 < len
                < 274_877_906_896))
        }),
        ({
            let session = s.noise.sessions[peer];
            &&& !s.noise.sessions.contains_key(peer) ==> noise_can_process(s, peer, len)
            &&& s.noise.sessions.contains_key(peer) && session.handshake is None
                ==> noise_can_process(s, peer, len)
            &&& s.noise.sessions.contains_key(peer) && session.handshake is Some
                && session.handshake->0.role == NoiseRole::Initiator && session.handshake->0.step
                == 1 ==> (noise_can_process(s, peer, len) <==> !(274_877_906_864 < len
                < 274_877_906_928))
            &&& s.noise.sessions.contains_key(peer) && session.handshake is Some
                && session.handshake->0.role == NoiseRole::Responder && session.handshake->0.step
                == 2 ==> (noise_can_process(s, peer, len) <==> !(274_877_906_832 < len
                < 274_877_906_896))
            &&& s.noise.sessions.contains_key(peer) && session.handshake is Some
                && session.handshake->0.step != 1 && session.handshake->0.step != 2
                ==> noise_can_process(s, peer, len)
        }),
{
}

} // verus!
