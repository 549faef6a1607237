//! What holds of handshakes, ciphers, sessions and the limit on them.

use vstd::bytes::spec_u64_to_le_bytes;
use vstd::prelude::*;
use vstd::utf8::encode_utf8;

use crate::noise_encryption::cipher::{cipher_open, cipher_seal, message_nonce, Cipher};
use crate::noise_encryption::handshake::{
    acceptable_key, initial, message_length, read_step, split_ciphers, write_step, Handshake,
    NoiseError, NoiseRole,
};
use crate::noise_encryption::manager::{
    all_at, attempts_of, count_attempt, create_step, due_among, due_peers, established_with, recent,
    sessions_initial, without_session, Sessions,
};
use crate::noise_encryption::session::{
    can_receive, can_send, needs_rekey, process_step, session_initial, session_open, session_seal,
    start_step, Session,
};
use crate::primitives::{
    chacha_opened, chacha_sealed, hkdf_sha256_okm, sha256_digest, x25519_public, x25519_shared,
    CHACHA_MAX_PLAINTEXT,
};
use crate::table::removed_keys_leave_the_others;

verus! {

/// A side begins with the name of the protocol for its transcript and its chaining key, its own static
/// secret, and nothing else.
pub proof fn handshakes_begin_with_the_protocol_name(role: NoiseRole, local_static: Seq<u8>)
    ensures
        initial(role, local_static).role == role,
        initial(role, local_static).step == 0,
        initial(role, local_static).local_static == local_static,
        initial(role, local_static).h == encode_utf8("Noise_XX_25519_ChaChaPoly_SHA256"@),
        initial(role, local_static).ck == encode_utf8("Noise_XX_25519_ChaChaPoly_SHA256"@),
        initial(role, local_static).k is None,
        initial(role, local_static).local_ephemeral is None,
        initial(role, local_static).remote_ephemeral is None,
        initial(role, local_static).remote_static is None,
{
}

/// A key is acceptable unless it has the wrong length or all its bits are alike.
pub proof fn degenerate_keys_are_refused(key: Seq<u8>, i: int, j: int)
    ensures
        acceptable_key(key) ==> key.len() == 32,
        key.len() == 32 && (forall|n: int| 0 <= n < 32 ==> #[trigger] key[n] == 0)
            ==> !acceptable_key(key),
        key.len() == 32 && (forall|n: int| 0 <= n < 32 ==> #[trigger] key[n] == 255)
            ==> !acceptable_key(key),
        key.len() == 32 && 0 <= i < 32 && 0 <= j < 32 && key[i] != 0 && key[j] != 255
            ==> acceptable_key(key),
{
}

/// The first message is the initiator's ephemeral key in clear. Both sides take it into the
/// transcript, and neither has a key yet.
pub proof fn the_first_message_is_an_ephemeral_key(i: Handshake, e: Seq<u8>, r: Handshake)
    requires
        i.role == NoiseRole::Initiator,
        i.step == 0,
        r.role == NoiseRole::Responder,
        r.step == 0,
        acceptable_key(x25519_public(e)),
    ensures
        write_step(i, e) == (
            Ok::<Seq<u8>, NoiseError>(x25519_public(e)),
            Handshake {
                step: 1,
                local_ephemeral: Some(e),
                h: sha256_digest(i.h + x25519_public(e)),
                ..i
            },
        ),
        read_step(r, x25519_public(e)) == (
            Ok::<Seq<u8>, NoiseError>(Seq::empty()),
            Handshake {
                step: 1,
                remote_ephemeral: Some(x25519_public(e)),
                h: sha256_digest(r.h + x25519_public(e)),
                ..r
            },
        ),
{
}

/// The second message is the responder's ephemeral key, and its static key sealed under the key that
/// the two ephemeral keys agree on, with the first bytes of the transcript for the nonce. The
/// agreement of the responder's static key with the initiator's ephemeral one goes into the keys
/// that come after.
pub proof fn the_second_message_seals_the_static_key(r: Handshake, e: Seq<u8>)
    requires
        r.role == NoiseRole::Responder,
        r.step == 1,
        r.remote_ephemeral is Some,
        x25519_public(r.local_static).len() <= CHACHA_MAX_PLAINTEXT,
    ensures
        ({
            let first = sha256_digest(r.h + x25519_public(e));
            let ee = hkdf_sha256_okm(
                r.ck,
                x25519_shared(e, r.remote_ephemeral->0),
                Seq::<u8>::empty(),
                64,
            );
            let sealed = chacha_sealed(
                ee.subrange(32, 64),
                first.subrange(0, 12),
                x25519_public(r.local_static),
            );
            let es = hkdf_sha256_okm(
                ee.subrange(0, 32),
                x25519_shared(r.local_static, r.remote_ephemeral->0),
                Seq::<u8>::empty(),
                64,
            );
            write_step(r, e) == (
                Ok::<Seq<u8>, NoiseError>(x25519_public(e) + sealed),
                Handshake {
                    step: 2,
                    local_ephemeral: Some(e),
                    h: sha256_digest(first + sealed),
                    ck: es.subrange(0, 32),
                    k: Some(es.subrange(32, 64)),
                    ..r
                },
            )
        }),
{
}

/// The initiator opens the static key in the second message under the key that the two ephemeral keys
/// agree on, and goes on with what its ephemeral key and that static key agree on.
pub proof fn the_second_message_is_opened_by_the_initiator(
    i: Handshake,
    key: Seq<u8>,
    sealed: Seq<u8>,
)
    requires
        i.role == NoiseRole::Initiator,
        i.step == 1,
        i.local_ephemeral is Some,
        acceptable_key(key),
    ensures
        ({
            let first = sha256_digest(i.h + key);
            let ee = hkdf_sha256_okm(
                i.ck,
                x25519_shared(i.local_ephemeral->0, key),
                Seq::<u8>::empty(),
                64,
            );
            let (r, after) = read_step(i, key + sealed);
            match chacha_opened(ee.subrange(32, 64), first.subrange(0, 12), sealed) {
                None => r == Err::<Seq<u8>, NoiseError>(NoiseError::DecryptionFailed),
                Some(p) => if !acceptable_key(p) {
                    r == Err::<Seq<u8>, NoiseError>(NoiseError::InvalidPublicKey)
                } else {
                    let es = hkdf_sha256_okm(
                        ee.subrange(0, 32),
                        x25519_shared(i.local_ephemeral->0, p),
                        Seq::<u8>::empty(),
                        64,
                    );
                    &&& r == Ok::<Seq<u8>, NoiseError>(Seq::empty())
                    &&& after == (Handshake {
                        step: 2,
                        remote_ephemeral: Some(key),
                        remote_static: Some(p),
                        h: sha256_digest(first + sealed),
                        ck: es.subrange(0, 32),
                        k: Some(es.subrange(32, 64)),
                        ..i
                    })
                },
            }
        }),
{
    let m = key + sealed;
    assert(m.subrange(0, 32) =~= key);
    assert(m.subrange(32, m.len() as int) =~= sealed);
}

/// The third message is the initiator's static key, sealed. The agreement of its ephemeral key with
/// the responder's static one goes into the keys that come after.
pub proof fn the_third_message_seals_the_static_key(i: Handshake, e: Seq<u8>)
    requires
        i.role == NoiseRole::Initiator,
        i.step == 2,
        i.k is Some,
        i.local_ephemeral is Some,
        i.remote_static is Some,
        x25519_public(i.local_static).len() <= CHACHA_MAX_PLAINTEXT,
    ensures
        ({
            let sealed = chacha_sealed(
                i.k->0,
                i.h.subrange(0, 12),
                x25519_public(i.local_static),
            );
            let se = hkdf_sha256_okm(
                i.ck,
                x25519_shared(i.local_ephemeral->0, i.remote_static->0),
                Seq::<u8>::empty(),
                64,
            );
            write_step(i, e) == (
                Ok::<Seq<u8>, NoiseError>(sealed),
                Handshake {
                    step: 3,
                    h: sha256_digest(i.h + sealed),
                    ck: se.subrange(0, 32),
                    k: Some(se.subrange(32, 64)),
                    ..i
                },
            )
        }),
{
}

/// The responder opens the static key in the third message under the current key, and goes on with
/// what its own static key and the initiator's ephemeral key agree on.
pub proof fn the_third_message_is_opened_by_the_responder(r: Handshake, sealed: Seq<u8>)
    requires
        r.role == NoiseRole::Responder,
        r.step == 2,
        r.k is Some,
        r.remote_ephemeral is Some,
    ensures
        ({
            let (outcome, after) = read_step(r, sealed);
            match chacha_opened(r.k->0, r.h.subrange(0, 12), sealed) {
                None => outcome == Err::<Seq<u8>, NoiseError>(NoiseError::DecryptionFailed)
                    && after == r,
                Some(p) => if !acceptable_key(p) {
                    outcome == Err::<Seq<u8>, NoiseError>(NoiseError::InvalidPublicKey)
                } else {
                    let se = hkdf_sha256_okm(
                        r.ck,
                        x25519_shared(r.local_static, r.remote_ephemeral->0),
                        Seq::<u8>::empty(),
                        64,
                    );
                    &&& outcome == Ok::<Seq<u8>, NoiseError>(Seq::empty())
                    &&& after == (Handshake {
                        step: 3,
                        remote_static: Some(p),
                        h: sha256_digest(r.h + sealed),
                        ck: se.subrange(0, 32),
                        k: Some(se.subrange(32, 64)),
                        ..r
                    })
                },
            }
        }),
{
}

/// Messages that are too short, or begin with a key that is not acceptable, are refused, and the side
/// that refuses them stays as it was.
pub proof fn malformed_messages_are_refused(s: Handshake, m: Seq<u8>)
    ensures
        s.role == NoiseRole::Responder && s.step == 0 && m.len() != 32 ==> read_step(s, m) == (
            Err::<Seq<u8>, NoiseError>(NoiseError::InvalidMessage),
            s,
        ),
        s.role == NoiseRole::Responder && s.step == 0 && m.len() == 32 && !acceptable_key(m)
            ==> read_step(s, m) == (Err::<Seq<u8>, NoiseError>(NoiseError::InvalidPublicKey), s),
        s.role == NoiseRole::Initiator && s.step == 1 && m.len() < 32 ==> read_step(s, m) == (
            Err::<Seq<u8>, NoiseError>(NoiseError::InvalidMessage),
            s,
        ),
        s.role == NoiseRole::Initiator && s.step == 1 && m.len() >= 32 && !acceptable_key(
            m.subrange(0, 32),
        ) ==> read_step(s, m) == (Err::<Seq<u8>, NoiseError>(NoiseError::InvalidPublicKey), s),
{
}

/// The three messages have 32, 80 and 48 bytes: a key, a key and a sealed key, a sealed key.
pub proof fn message_lengths(s: Handshake)
    ensures
        s.role == NoiseRole::Initiator && s.step == 0 ==> message_length(s) == 32,
        s.role == NoiseRole::Responder && s.step == 1 ==> message_length(s) == 32 + 32 + 16,
        s.role == NoiseRole::Initiator && s.step == 2 ==> message_length(s) == 32 + 16,
{
}

/// A complete handshake yields two ciphers that have not been used: the initiator sends with the first
/// half of the key material and receives with the second, the responder the other way round. One
/// that is not complete yields none.
pub proof fn complete_handshakes_yield_ciphers(s: Handshake)
    ensures
        s.step < 3 ==> split_ciphers(s) == Err::<(Cipher, Cipher), NoiseError>(
            NoiseError::InvalidHandshakeState,
        ),
        s.step >= 3 ==> ({
            let okm = hkdf_sha256_okm(s.ck, Seq::<u8>::empty(), Seq::<u8>::empty(), 64);
            let first = Cipher { key: okm.subrange(0, 32), nonce: 0 };
            let second = Cipher { key: okm.subrange(32, 64), nonce: 0 };
            split_ciphers(s) == Ok::<(Cipher, Cipher), NoiseError>(
                if s.role == NoiseRole::Initiator {
                    (first, second)
                } else {
                    (second, first)
                },
            )
        }),
{
}

/// A cipher seals and opens under its key and the number of the message, four zero bytes in front of
/// it, and counts what went through.
pub proof fn ciphers_go_by_key_and_number(c: Cipher, p: Seq<u8>, sealed: Seq<u8>)
    requires
        c.nonce < u64::MAX,
    ensures
        message_nonce(c.nonce) == seq![0u8, 0, 0, 0] + spec_u64_to_le_bytes(c.nonce),
        p.len() <= CHACHA_MAX_PLAINTEXT ==> cipher_seal(c, p) == (
            Ok::<Seq<u8>, NoiseError>(
                chacha_sealed(c.key, seq![0u8, 0, 0, 0] + spec_u64_to_le_bytes(c.nonce), p),
            ),
            Cipher { key: c.key, nonce: (c.nonce + 1) as u64 },
        ),
        p.len() > CHACHA_MAX_PLAINTEXT ==> cipher_seal(c, p) == (
            Err::<Seq<u8>, NoiseError>(NoiseError::EncryptionFailed),
            c,
        ),
        cipher_open(c, sealed) == (match chacha_opened(
            c.key,
            seq![0u8, 0, 0, 0] + spec_u64_to_le_bytes(c.nonce),
            sealed,
        ) {
            Some(found) => (
                Ok::<Seq<u8>, NoiseError>(found),
                Cipher { key: c.key, nonce: (c.nonce + 1) as u64 },
            ),
            None => (Err(NoiseError::DecryptionFailed), c),
        }),
{
}

/// A new session has a handshake that has not begun, and counts its time from its beginning.
pub proof fn sessions_begin_with_a_handshake(
    peer: Seq<char>,
    role: NoiseRole,
    local_static: Seq<u8>,
    now: u128,
)
    ensures
        session_initial(peer, role, local_static, now) == (Session {
            peer_id: peer,
            role,
            handshake: Some(initial(role, local_static)),
            send: None,
            recv: None,
            remote_static_key: None,
            last_activity: now,
            message_count: 0,
            established: false,
        }),
{
}

/// A session writes what its handshake writes, and is active when it does.
pub proof fn sessions_write_their_handshake(s: Session, ephemeral: Seq<u8>, now: u128)
    ensures
        s.handshake matches Some(hs) ==> start_step(s, ephemeral, now).0 == write_step(
            hs,
            ephemeral,
        ).0,
        s.handshake matches Some(hs) ==> start_step(s, ephemeral, now).1 == (Session {
            handshake: Some(write_step(hs, ephemeral).1),
            last_activity: if write_step(hs, ephemeral).0 is Ok {
                now
            } else {
                s.last_activity
            },
            ..s
        }),
        s.handshake is None ==> start_step(s, ephemeral, now) == (
            Err::<Seq<u8>, NoiseError>(NoiseError::InvalidHandshakeState),
            s,
        ),
{
}

/// A session that reads the last message is established with the ciphers of its handshake and the
/// static key that it brought, and has no handshake any more; one that reads an earlier message
/// goes on with its handshake and answers nothing; one that refuses a message is not active by it.
pub proof fn sessions_read_their_handshake(s: Session, m: Seq<u8>, ephemeral: Seq<u8>, now: u128)
    requires
        s.handshake is Some,
        s.role == s.handshake->0.role,
        s.handshake->0.step <= 2,
    ensures
        ({
            let (outcome, hs) = read_step(s.handshake->0, m);
            let (r, after) = process_step(s, m, ephemeral, now);
            match outcome {
                Err(e) => {
                    &&& r == Err::<Option<Seq<u8>>, NoiseError>(e)
                    &&& after == (Session { handshake: Some(hs), ..s })
                },
                Ok(_) => {
                    &&& r == Ok::<Option<Seq<u8>>, NoiseError>(None)
                    &&& s.handshake->0.step == 2 ==> after == (Session {
                        handshake: None,
                        send: Some(split_ciphers(hs)->Ok_0.0),
                        recv: Some(split_ciphers(hs)->Ok_0.1),
                        remote_static_key: hs.remote_static,
                        established: true,
                        last_activity: now,
                        ..s
                    })
                    &&& s.handshake->0.step < 2 ==> after == (Session {
                        handshake: Some(hs),
                        last_activity: now,
                        ..s
                    })
                },
            }
        }),
{
}

/// A session encrypts with its sending cipher and decrypts with its receiving one. It is active when
/// it does, and counts what it sends. Without ciphers it does neither.
pub proof fn sessions_use_their_ciphers(s: Session, bytes: Seq<u8>, now: u128)
    ensures
        s.send matches Some(c) ==> session_seal(s, bytes, now) == (
            cipher_seal(c, bytes).0,
            if cipher_seal(c, bytes).0 is Ok {
                Session {
                    send: Some(cipher_seal(c, bytes).1),
                    last_activity: now,
                    message_count: (s.message_count + 1) as u64,
                    ..s
                }
            } else {
                s
            },
        ),
        s.recv matches Some(c) ==> session_open(s, bytes, now) == (
            cipher_open(c, bytes).0,
            if cipher_open(c, bytes).0 is Ok {
                Session { recv: Some(cipher_open(c, bytes).1), last_activity: now, ..s }
            } else {
                s
            },
        ),
        s.send is None ==> session_seal(s, bytes, now) == (
            Err::<Seq<u8>, NoiseError>(NoiseError::SessionNotEstablished),
            s,
        ),
        s.recv is None ==> session_open(s, bytes, now) == (
            Err::<Seq<u8>, NoiseError>(NoiseError::SessionNotEstablished),
            s,
        ),
        can_send(s) <==> s.message_count < u64::MAX && (s.send is Some ==> s.send->0.nonce
            < u64::MAX),
        can_receive(s) <==> (s.recv is Some ==> s.recv->0.nonce < u64::MAX),
{
}

/// A session needs rekeying exactly when it was idle for more than half an hour, or has sent 900,000
/// messages.
pub proof fn rekeying_is_due_after_time_or_messages(s: Session, now: u128)
    ensures
        needs_rekey(s, now) <==> now > s.last_activity + 1800 * 1_000_000_000 || s.message_count
            >= 900_000,
{
}

/// Which attempts still count is decided one by one: those of the last sixty seconds.
pub proof fn attempts_count_for_sixty_seconds(a: Seq<u128>, b: Seq<u128>, t: u128, now: u128)
    ensures
        recent(a + b, now) == recent(a, now) + recent(b, now),
        recent(seq![t], now) == (if t + 60 * 1_000_000_000 > now {
            seq![t]
        } else {
            Seq::empty()
        }),
    decreases b.len(),
{
    reveal(Seq::filter);
    let one = seq![t];
    assert(one.drop_last() =~= Seq::<u128>::empty());
    assert(recent(one.drop_last(), now) =~= Seq::<u128>::empty());
    assert(recent(one, now) =~= (if t + 60 * 1_000_000_000 > now {
        seq![t]
    } else {
        Seq::empty()
    }));
    if b.len() == 0 {
        assert(a + b =~= a);
        assert(recent(b, now) =~= Seq::<u128>::empty());
        assert(recent(a, now) + recent(b, now) =~= recent(a, now));
    } else {
        attempts_count_for_sixty_seconds(a, b.drop_last(), t, now);
        assert((a + b).drop_last() =~= a + b.drop_last());
        assert(recent(a + b, now) =~= recent(a, now) + recent(b, now));
    }
}

/// A session is begun exactly when fewer than five attempts count; only then does the attempt count
/// itself, and the new session takes the place of an earlier one. A refusal changes nothing but the
/// list of attempts.
pub proof fn fewer_than_five_attempts_are_admitted(
    m: Sessions,
    peer: Seq<char>,
    role: NoiseRole,
    now: u128,
)
    ensures
        ({
            let known = if m.attempts.contains_key(peer) {
                m.attempts[peer]
            } else {
                Seq::empty()
            };
            let counted = recent(known, now);
            let (r, after) = create_step(m, peer, role, now);
            &&& attempts_of(m, peer) == known
            &&& count_attempt(known, now) == (counted.len() < 5, if counted.len() < 5 {
                counted.push(now)
            } else {
                counted
            })
            &&& counted.len() < 5 ==> r == Ok::<(), NoiseError>(()) && after == (Sessions {
                local_static: m.local_static,
                peers: if m.peers.contains(peer) {
                    m.peers
                } else {
                    m.peers.push(peer)
                },
                sessions: m.sessions.insert(
                    peer,
                    session_initial(peer, role, m.local_static, now),
                ),
                attempts: m.attempts.insert(peer, counted.push(now)),
            })
            &&& counted.len() >= 5 ==> r == Err::<(), NoiseError>(NoiseError::RateLimitExceeded)
                && after == (Sessions { attempts: m.attempts.insert(peer, counted), ..m })
        }),
{
}

/// A session that is ended is the only one to go: the others stay in their order, and what counts
/// towards the limit stays.
pub proof fn ended_sessions_leave_the_others(
    m: Sessions,
    before: Seq<Seq<char>>,
    peer: Seq<char>,
    after: Seq<Seq<char>>,
)
    requires
        m.peers == before + seq![peer] + after,
        !before.contains(peer),
        !after.contains(peer),
    ensures
        without_session(m, peer).peers == before + after,
        without_session(m, peer).sessions == m.sessions.remove(peer),
        without_session(m, peer).attempts == m.attempts,
        without_session(m, peer).local_static == m.local_static,
{
    removed_keys_leave_the_others(before, peer, after);
}

/// Which sessions need rekeying is decided one by one, in the order of the peers, each at its own
/// time. A session is established where there is one and it says so.
pub proof fn rekeying_is_decided_session_by_session(
    m: Sessions,
    nows: Seq<u128>,
    n: nat,
    peer: Seq<char>,
)
    ensures
        due_among(m, nows, 0) == Seq::<Seq<char>>::empty(),
        due_among(m, nows, n + 1) == (if nows[n as int] > m.sessions[m.peers[n as int]].last_activity
            + 1800 * 1_000_000_000 || m.sessions[m.peers[n as int]].message_count >= 900_000 {
            due_among(m, nows, n).push(m.peers[n as int])
        } else {
            due_among(m, nows, n)
        }),
        due_peers(m, nows) == due_among(m, nows, m.peers.len()),
        established_with(m, peer) <==> m.sessions.contains_key(peer)
            && m.sessions[peer].established,
{
}

/// At first there are no sessions and no attempts, only the static secret. Where one time is taken for
/// all sessions, each has that time.
pub proof fn at_first_there_are_no_sessions(
    local_static: Seq<u8>,
    peer: Seq<char>,
    m: Sessions,
    now: u128,
    i: int,
)
    ensures
        sessions_initial(local_static).local_static == local_static,
        sessions_initial(local_static).peers.len() == 0,
        !sessions_initial(local_static).sessions.contains_key(peer),
        attempts_of(sessions_initial(local_static), peer).len() == 0,
        all_at(m, now).len() == m.peers.len(),
        0 <= i < m.peers.len() ==> all_at(m, now)[i] == now,
{
}

} // verus!
