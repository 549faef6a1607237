//! What the two sides of a handshake agree on as long as the messages arrive unchanged.

use vstd::prelude::*;

use crate::noise_encryption::handshake::{
    acceptable_key, handshake_nonce, initial, mix_hash, mix_key, open_step, read_step,
    split_ciphers, with_remote_ephemeral, write_step, Handshake, NoiseError, NoiseRole,
};
use crate::primitives::{
    chacha_opened, chacha_sealed, x25519_public, x25519_shared, CHACHA_MAX_PLAINTEXT,
};

verus! {

/// An initiator and a responder after the same messages of one handshake: their transcripts and
/// keys are the same, and each holds the public keys of the secrets that the other one has used.
pub open spec fn in_step(i: Handshake, r: Handshake) -> bool {
    &&& i.role == NoiseRole::Initiator
    &&& r.role == NoiseRole::Responder
    &&& i.step == r.step
    &&& i.step <= 3
    &&& i.h == r.h
    &&& i.ck == r.ck
    &&& i.k == r.k
    &&& i.local_static.len() == 32
    &&& r.local_static.len() == 32
    &&& i.step == 0 ==> i.k is None
    &&& i.step >= 1 ==> {
        &&& i.local_ephemeral is Some
        &&& i.local_ephemeral->0.len() == 32
        &&& r.remote_ephemeral == Some(x25519_public(i.local_ephemeral->0))
    }
    &&& i.step >= 2 ==> {
        &&& i.k is Some
        &&& r.local_ephemeral is Some
        &&& r.local_ephemeral->0.len() == 32
        &&& i.remote_ephemeral == Some(x25519_public(r.local_ephemeral->0))
        &&& i.remote_static == Some(x25519_public(r.local_static))
    }
    &&& i.step >= 3 ==> r.remote_static == Some(x25519_public(i.local_static))
}

/// The two sides of one handshake, in either order.
pub open spec fn paired(a: Handshake, b: Handshake) -> bool {
    in_step(a, b) || in_step(b, a)
}

/// The public keys that a side sends when it writes with `ephemeral` are ones that a reader
/// accepts.
pub open spec fn sends_acceptable_keys(s: Handshake, ephemeral: Seq<u8>) -> bool {
    &&& s.step <= 1 ==> acceptable_key(x25519_public(ephemeral))
    &&& s.step >= 1 ==> acceptable_key(x25519_public(s.local_static))
}

/// Both ends of a key agreement compute the same secret.
pub open spec fn dh_agrees(secret: Seq<u8>, public: Seq<u8>) -> bool {
    forall|other: Seq<u8>|
        other.len() == 32 && #[trigger] x25519_public(other) == public ==> x25519_shared(
            secret,
            public,
        ) == x25519_shared(other, x25519_public(secret))
}

/// A sealed message opens to what was sealed.
pub open spec fn open_agrees(key: Seq<u8>, nonce: Seq<u8>, c: Seq<u8>) -> bool {
    forall|p: Seq<u8>|
        p.len() <= CHACHA_MAX_PLAINTEXT && c == #[trigger] chacha_sealed(key, nonce, p)
            ==> chacha_opened(key, nonce, c) == Some(p)
}

/// Every key agreement and every opening that reading `m` takes agrees with its other end.
pub open spec fn read_agrees(s: Handshake, m: Seq<u8>) -> bool {
    match (s.role, s.step) {
        (NoiseRole::Initiator, 1) => m.len() >= 32 && acceptable_key(m.subrange(0, 32)) ==> {
            let e = m.subrange(0, 32);
            let with_ee = with_remote_ephemeral(s, e);
            let c = m.subrange(32, m.len() as int);
            &&& s.local_ephemeral is Some ==> dh_agrees(s.local_ephemeral->0, e)
            &&& with_ee.k is Some ==> open_agrees(with_ee.k->0, handshake_nonce(with_ee), c)
            &&& match open_step(with_ee, c).0 {
                Ok(p) => acceptable_key(p) && s.local_ephemeral is Some ==> dh_agrees(
                    s.local_ephemeral->0,
                    p,
                ),
                Err(_) => true,
            }
        },
        (NoiseRole::Responder, 2) => {
            &&& s.k is Some ==> open_agrees(s.k->0, handshake_nonce(s), m)
            &&& match open_step(s, m).0 {
                Ok(p) => acceptable_key(p) && s.remote_ephemeral is Some ==> dh_agrees(
                    s.local_static,
                    s.remote_ephemeral->0,
                ),
                Err(_) => true,
            }
        },
        _ => true,
    }
}

/// Two sides that have neither sent nor received anything are in step, whatever their keys.
pub proof fn initial_sides_are_in_step(a: Seq<u8>, b: Seq<u8>)
    requires
        a.len() == 32,
        b.len() == 32,
    ensures
        in_step(initial(NoiseRole::Initiator, a), initial(NoiseRole::Responder, b)),
{
}

/// A message that arrives as it was written is accepted, and leaves the two sides in step.
pub(crate) proof fn lemma_delivery(w: Handshake, e: Seq<u8>, s: Handshake)
    requires
        paired(w, s),
        e.len() == 32,
        sends_acceptable_keys(w, e),
        write_step(w, e).0 is Ok,
        read_agrees(s, write_step(w, e).0->Ok_0),
    ensures
        read_step(s, write_step(w, e).0->Ok_0).0 == Ok::<Seq<u8>, NoiseError>(Seq::empty()),
        paired(write_step(w, e).1, read_step(s, write_step(w, e).0->Ok_0).1),
{
    let m = write_step(w, e).0->Ok_0;
    let pe = x25519_public(e);
    let ps = x25519_public(w.local_static);
    match (w.role, w.step) {
        (NoiseRole::Initiator, 0) => {},
        (NoiseRole::Responder, 1) => {
            let a = s.local_ephemeral->0;
            assert(m.subrange(0, 32) =~= pe);
            assert(x25519_shared(a, pe) == x25519_shared(e, x25519_public(a)));
            let with_ee = with_remote_ephemeral(s, pe);
            let c = chacha_sealed(with_ee.k->0, handshake_nonce(with_ee), ps);
            assert(m.subrange(32, m.len() as int) =~= c);
            assert(chacha_opened(with_ee.k->0, handshake_nonce(with_ee), c) == Some(ps));
            assert(x25519_shared(a, ps) == x25519_shared(w.local_static, x25519_public(a)));
        },
        (NoiseRole::Initiator, 2) => {
            let c = chacha_sealed(s.k->0, handshake_nonce(s), ps);
            assert(m == c);
            assert(chacha_opened(s.k->0, handshake_nonce(s), c) == Some(ps));
            let a = w.local_ephemeral->0;
            assert(x25519_shared(s.local_static, x25519_public(a)) == x25519_shared(
                a,
                x25519_public(s.local_static),
            ));
        },
        _ => {},
    }
}

/// The other side of a handshake.
pub open spec fn other_role(role: NoiseRole) -> NoiseRole {
    match role {
        NoiseRole::Initiator => NoiseRole::Responder,
        NoiseRole::Responder => NoiseRole::Initiator,
    }
}

/// Whether the next message is this side's to write.
pub open spec fn writes_next(role: NoiseRole, step: u8) -> bool {
    match role {
        NoiseRole::Initiator => step == 0 || step == 2,
        NoiseRole::Responder => step == 1,
    }
}

/// A side that writes out of turn, or after the last message, is refused and stays as it was.
pub proof fn writing_out_of_turn_is_refused(s: Handshake, e: Seq<u8>)
    requires
        !writes_next(s.role, s.step),
    ensures
        write_step(s, e) == (Err::<Seq<u8>, NoiseError>(NoiseError::InvalidHandshakeState), s),
{
}

/// A side that reads out of turn, or after the last message, refuses the message and stays as it
/// was.
pub proof fn reading_out_of_turn_is_refused(s: Handshake, m: Seq<u8>)
    requires
        !writes_next(other_role(s.role), s.step),
    ensures
        read_step(s, m) == (Err::<Seq<u8>, NoiseError>(NoiseError::InvalidHandshakeState), s),
{
}

/// A message is written or read only in turn, and reading one yields nothing but the next state.
/// Whoever has just written has to read before it can write again, and the other way round.
pub proof fn turns_alternate(s: Handshake, e: Seq<u8>, m: Seq<u8>, e2: Seq<u8>, m2: Seq<u8>)
    ensures
        write_step(s, e).0 is Ok ==> {
            &&& writes_next(s.role, s.step)
            &&& write_step(write_step(s, e).1, e2) == (
                Err::<Seq<u8>, NoiseError>(NoiseError::InvalidHandshakeState),
                write_step(s, e).1,
            )
        },
        read_step(s, m).0 is Ok ==> {
            &&& writes_next(other_role(s.role), s.step)
            &&& read_step(s, m).0->Ok_0 == Seq::<u8>::empty()
            &&& read_step(read_step(s, m).1, m2) == (
                Err::<Seq<u8>, NoiseError>(NoiseError::InvalidHandshakeState),
                read_step(s, m).1,
            )
        },
{
}

/// Until the handshake is complete exactly one side is to write.
pub proof fn one_side_writes_next(role: NoiseRole, step: u8)
    requires
        step < 3,
    ensures
        writes_next(role, step) != writes_next(other_role(role), step),
{
}

/// What holds of a side after any run of the handshake: it has the keys that the messages so far
/// have brought.
pub open spec fn reachable(s: Handshake) -> bool {
    &&& s.step <= 3
    &&& match s.role {
        NoiseRole::Initiator => {
            &&& s.step >= 1 ==> s.local_ephemeral is Some
            &&& s.step >= 2 ==> s.k is Some && s.remote_ephemeral is Some && s.remote_static is Some
        },
        NoiseRole::Responder => {
            &&& s.step >= 1 ==> s.remote_ephemeral is Some
            &&& s.step >= 2 ==> s.k is Some && s.local_ephemeral is Some
            &&& s.step >= 3 ==> s.remote_static is Some
        },
    }
    &&& s.remote_static is Some ==> acceptable_key(s.remote_static->0)
    &&& s.remote_ephemeral is Some ==> acceptable_key(s.remote_ephemeral->0)
}

/// Every run of the handshake, whatever arrives, keeps to what `reachable` says; it moves on by
/// one message exactly when it succeeds, and never changes its role or its static key. In
/// particular a side that has completed knows an acceptable static key of the other side.
pub proof fn handshake_stays_reachable(s: Handshake, e: Seq<u8>, m: Seq<u8>)
    requires
        reachable(s),
    ensures
        reachable(write_step(s, e).1),
        reachable(read_step(s, m).1),
        write_step(s, e).1.step == s.step + (if write_step(s, e).0 is Ok {
            1int
        } else {
            0int
        }),
        read_step(s, m).1.step == s.step + (if read_step(s, m).0 is Ok {
            1int
        } else {
            0int
        }),
        write_step(s, e).1.role == s.role && write_step(s, e).1.local_static == s.local_static,
        read_step(s, m).1.role == s.role && read_step(s, m).1.local_static == s.local_static,
{
}

/// A side that has not begun is reachable.
pub proof fn initial_is_reachable(role: NoiseRole, local_static: Seq<u8>)
    ensures
        reachable(initial(role, local_static)),
{
}

/// The responder once it has agreed on a key by the two ephemeral keys.
pub open spec fn with_ephemerals_agreed(s: Handshake, e: Seq<u8>) -> Handshake {
    mix_key(
        Handshake { local_ephemeral: Some(e), ..mix_hash(s, x25519_public(e)) },
        x25519_shared(e, s.remote_ephemeral->0),
    )
}

/// No side ever sends its static key in clear: where a message carries it, it is sealed. The
/// responder seals it under the key that the two ephemeral keys agree on, the initiator under the
/// one that the responder's static key has gone into as well.
pub proof fn static_keys_are_sealed(s: Handshake, e: Seq<u8>)
    requires
        reachable(s),
        write_step(s, e).0 is Ok,
    ensures
        match (s.role, s.step) {
            (NoiseRole::Initiator, 0) => write_step(s, e).0->Ok_0 == x25519_public(e),
            (NoiseRole::Responder, 1) => write_step(s, e).0->Ok_0 == x25519_public(e)
                + chacha_sealed(
                with_ephemerals_agreed(s, e).k->0,
                handshake_nonce(with_ephemerals_agreed(s, e)),
                x25519_public(s.local_static),
            ),
            _ => write_step(s, e).0->Ok_0 == chacha_sealed(
                s.k->0,
                handshake_nonce(s),
                x25519_public(s.local_static),
            ),
        },
{
}

/// When two sides have completed one handshake, each one's sending cipher is the other one's
/// receiving cipher, and each knows the other's static public key.
pub proof fn completed_sides_share_ciphers(i: Handshake, r: Handshake)
    requires
        in_step(i, r),
        i.step == 3,
    ensures
        split_ciphers(i) is Ok,
        split_ciphers(r) is Ok,
        split_ciphers(i)->Ok_0.0 == split_ciphers(r)->Ok_0.1,
        split_ciphers(i)->Ok_0.1 == split_ciphers(r)->Ok_0.0,
        i.remote_static == Some(x25519_public(r.local_static)),
        r.remote_static == Some(x25519_public(i.local_static)),
{
}

} // verus!
