//! The sessions with all peers, and the limit on how often one may be begun.

use vstd::prelude::*;

use crate::clock::{Clock, SECOND};
use crate::noise_encryption::handshake::{NoiseError, NoiseRole};
use crate::noise_encryption::session::{
    fingerprint, key_fingerprint, needs_rekey, session_initial, NoiseSession, Session,
};
use crate::primitives::{random_secret, x25519_public, x25519_public_key};
use crate::table::{keys_with, keys_without, Table};
use crate::text::texts;

verus! {

/// How many sessions with one peer may be begun within the time of `RATE_SECONDS`.
pub const RATE_LIMIT: usize = 5;

/// The time over which attempts to begin a session are counted, in seconds.
pub const RATE_SECONDS: u128 = 60;

/// The sessions with all peers, as a mathematical value.
pub struct Sessions {
    pub local_static: Seq<u8>,
    /// The peers with a session, in the order in which the sessions were begun.
    pub peers: Seq<Seq<char>>,
    pub sessions: Map<Seq<char>, Session>,
    /// For each peer the times of the attempts that count towards the limit.
    pub attempts: Map<Seq<char>, Seq<u128>>,
}

/// The sessions with all peers.
pub struct NoiseSessionManager {
    local_static: [u8; 32],
    sessions: Table<NoiseSession>,
    rate_limits: Table<Vec<u128>>,
    clock: Clock,
}

/// Sessions as mathematical values.
pub open spec fn session_map(table: Map<Seq<char>, NoiseSession>) -> Map<Seq<char>, Session> {
    table.map_values(|s: NoiseSession| s@)
}

/// Lists of times as sequences.
pub open spec fn time_map(table: Map<Seq<char>, Vec<u128>>) -> Map<Seq<char>, Seq<u128>> {
    table.map_values(|v: Vec<u128>| v@)
}

impl View for NoiseSessionManager {
    type V = Sessions;

    closed spec fn view(&self) -> Sessions {
        Sessions {
            local_static: self.local_static@,
            peers: self.sessions.keys(),
            sessions: session_map(self.sessions.map()),
            attempts: time_map(self.rate_limits.map()),
        }
    }
}

/// No sessions.
pub open spec fn sessions_initial(local_static: Seq<u8>) -> Sessions {
    Sessions {
        local_static,
        peers: Seq::empty(),
        sessions: Map::empty(),
        attempts: Map::empty(),
    }
}

/// Whether an attempt at the time `t` still counts at the time `now`.
pub open spec fn counts(t: u128, now: u128) -> bool {
    t + RATE_SECONDS * SECOND > now
}

/// The attempts that still count at the time `now`.
pub open spec fn recent(attempts: Seq<u128>, now: u128) -> Seq<u128> {
    attempts.filter(|t: u128| counts(t, now))
}

/// Whether an attempt at the time `now` is admitted after those in `attempts`, and the attempts
/// that count from then on.
pub open spec fn count_attempt(attempts: Seq<u128>, now: u128) -> (bool, Seq<u128>) {
    let counted = recent(attempts, now);
    if counted.len() >= RATE_LIMIT {
        (false, counted)
    } else {
        (true, counted.push(now))
    }
}

/// The attempts of a peer.
pub open spec fn attempts_of(m: Sessions, peer_id: Seq<char>) -> Seq<u128> {
    if m.attempts.contains_key(peer_id) {
        m.attempts[peer_id]
    } else {
        Seq::empty()
    }
}

/// Beginning a session with a peer at the time `now`: it takes the place of an earlier one, unless
/// too many were begun lately.
pub open spec fn create_step(m: Sessions, peer_id: Seq<char>, role: NoiseRole, now: u128) -> (
    Result<(), NoiseError>,
    Sessions,
) {
    let (admitted, attempts) = count_attempt(attempts_of(m, peer_id), now);
    let counted = Sessions { attempts: m.attempts.insert(peer_id, attempts), ..m };
    if admitted {
        (
            Ok(()),
            Sessions {
                peers: keys_with(m.peers, peer_id),
                sessions: m.sessions.insert(
                    peer_id,
                    session_initial(peer_id, role, m.local_static, now),
                ),
                ..counted
            },
        )
    } else {
        (Err(NoiseError::RateLimitExceeded), counted)
    }
}

/// The sessions without that with `peer_id`.
pub open spec fn without_session(m: Sessions, peer_id: Seq<char>) -> Sessions {
    Sessions {
        peers: keys_without(m.peers, peer_id),
        sessions: m.sessions.remove(peer_id),
        ..m
    }
}

/// Of the first `n` peers those whose sessions need rekeying. Each session has its own time.
pub open spec fn due_among(m: Sessions, nows: Seq<u128>, n: nat) -> Seq<Seq<char>>
    decreases n,
{
    if n == 0 {
        Seq::empty()
    } else {
        let peer = m.peers[n - 1];
        let before = due_among(m, nows, (n - 1) as nat);
        if needs_rekey(m.sessions[peer], nows[n - 1]) {
            before.push(peer)
        } else {
            before
        }
    }
}

/// The peers whose sessions need rekeying, where the clocks of the sessions show the given times,
/// in the order of the peers.
pub open spec fn due_peers(m: Sessions, nows: Seq<u128>) -> Seq<Seq<char>> {
    due_among(m, nows, m.peers.len())
}

/// The same time for every session.
pub open spec fn all_at(m: Sessions, now: u128) -> Seq<u128> {
    Seq::new(m.peers.len(), |i: int| now)
}

/// Whether the session with a peer is established.
pub open spec fn established_with(m: Sessions, peer_id: Seq<char>) -> bool {
    m.sessions.contains_key(peer_id) && m.sessions[peer_id].established
}

/// The elements of a list of times that still count at the time `now`.
fn recent_attempts(attempts: &Vec<u128>, now: u128) -> (r: Vec<u128>)
    ensures
        r@ == recent(attempts@, now),
{
    let ghost keep = |t: u128| counts(t, now);
    let mut recent: Vec<u128> = Vec::new();
    let mut i: usize = 0;
    assert(attempts@.take(0).filter(keep) =~= Seq::<u128>::empty()) by {
        reveal(Seq::filter);
    }
    while i < attempts.len()
        invariant
            i <= attempts@.len(),
            keep == (|t: u128| counts(t, now)),
            recent@ == attempts@.take(i as int).filter(keep),
        decreases attempts@.len() - i,
    {
        let time: u128 = attempts[i];
        proof {
            reveal(Seq::filter);
            assert(attempts@.take(i + 1).drop_last() =~= attempts@.take(i as int));
            assert(attempts@.take(i + 1).last() == time);
        }
        if time > now || now - time < RATE_SECONDS * SECOND {
            recent.push(time);
        }
        i = i + 1;
    }
    assert(attempts@.take(i as int) =~= attempts@);
    recent
}

/// Applies `f` to a session.
fn apply_to<F, R>(session: &mut NoiseSession, f: F) -> (r: R) where
    F: FnOnce(&mut NoiseSession) -> R,

    requires
        forall|s: &mut NoiseSession| *s == *old(session) ==> f.requires((s,)),
    ensures
        exists|s: &mut NoiseSession|
            *s == *old(session) && *final(s) == *final(session) && f.ensures((s,), r),
{
    f(session)
}

impl NoiseSessionManager {
    /// No peer is listed twice.
    pub closed spec fn wf(&self) -> bool {
        self.sessions.wf() && self.rate_limits.wf()
    }

    /// The sessions themselves.
    pub closed spec fn table(&self) -> Map<Seq<char>, NoiseSession> {
        self.sessions.map()
    }

    /// What the two descriptions of the sessions have to do with each other.
    pub proof fn lemma_table(&self)
        requires
            self.wf(),
        ensures
            self@.local_static.len() == 32,
            self@.sessions == session_map(self.table()),
            self@.peers.no_duplicates(),
            forall|peer: Seq<char>| #[trigger]
                self@.sessions.contains_key(peer) <==> self@.peers.contains(peer),
    {
        self.sessions.lemma_keys();
        assert forall|peer: Seq<char>| #[trigger]
            self@.sessions.contains_key(peer) <==> self@.peers.contains(peer) by {
            assert(self.sessions.map().contains_key(peer) <==> self.sessions.keys().contains(peer));
        }
    }

    /// A manager with the static secret `local_static` and no sessions.
    pub fn with_static(local_static: [u8; 32]) -> (r: Self)
        ensures
            r.wf(),
            r@ == sessions_initial(local_static@),
    {
        let r = NoiseSessionManager {
            local_static,
            sessions: Table::new(),
            rate_limits: Table::new(),
            clock: Clock::start(),
        };
        assert(r@.sessions =~= Map::<Seq<char>, Session>::empty());
        assert(r@.attempts =~= Map::<Seq<char>, Seq<u128>>::empty());
        r
    }

    /// A manager with a fresh static secret and no sessions.
    pub fn new() -> (r: Self)
        ensures
            r.wf(),
            exists|local_static: Seq<u8>|
                local_static.len() == 32 && r@ == #[trigger] sessions_initial(local_static),
    {
        let local_static: [u8; 32] = random_secret();
        assert(local_static@.len() == 32);
        Self::with_static(local_static)
    }

    /// The time on the manager's clock.
    pub(crate) fn now(&self) -> u128 {
        self.clock.read()
    }

    /// Counts an attempt to begin a session and tells whether it is admitted.
    fn check_rate_limit(&mut self, peer_id: &str, now: u128) -> (r: bool)
        requires
            old(self).wf(),
        ensures
            final(self).wf(),
            r == count_attempt(attempts_of(old(self)@, peer_id@), now).0,
            final(self)@ == (Sessions {
                attempts: old(self)@.attempts.insert(
                    peer_id@,
                    count_attempt(attempts_of(old(self)@, peer_id@), now).1,
                ),
                ..old(self)@
            }),
            final(self).clock == old(self).clock,
    {
        let ghost before = self@;
        let mut attempts: Vec<u128> = match self.rate_limits.get(peer_id) {
            Some(list) => recent_attempts(list, now),
            None => recent_attempts(&Vec::new(), now),
        };
        let admitted: bool = attempts.len() < RATE_LIMIT;
        if admitted {
            attempts.push(now);
        }
        assert(attempts@ == count_attempt(attempts_of(before, peer_id@), now).1);
        self.rate_limits.insert(peer_id, attempts);
        assert(self@.attempts =~= before.attempts.insert(peer_id@, attempts@));
        admitted
    }

    /// Begins a session with a peer at the time `now`.
    pub fn create_session_at(&mut self, peer_id: &str, role: NoiseRole, now: u128) -> (r: Result<
        (),
        NoiseError,
    >)
        requires
            old(self).wf(),
        ensures
            final(self).wf(),
            (r, final(self)@) == create_step(old(self)@, peer_id@, role, now),
    {
        let ghost before = self@;
        if !self.check_rate_limit(peer_id, now) {
            return Err(NoiseError::RateLimitExceeded);
        }
        let session: NoiseSession = NoiseSession::with_clock(
            peer_id.to_string(),
            role,
            self.local_static,
            self.clock,
            now,
        );
        self.sessions.insert(peer_id, session);
        assert(self@.sessions =~= before.sessions.insert(peer_id@, session@));
        Ok(())
    }

    /// Begins a session with a peer.
    pub fn create_session(&mut self, peer_id: &str, role: NoiseRole) -> (r: Result<
        (),
        NoiseError,
    >)
        requires
            old(self).wf(),
        ensures
            final(self).wf(),
            exists|now: u128|
                (r, final(self)@) == #[trigger] create_step(old(self)@, peer_id@, role, now),
    {
        let now: u128 = self.clock.read();
        self.create_session_at(peer_id, role, now)
    }

    /// The session with a peer.
    pub(crate) fn session(&self, peer_id: &str) -> (r: Option<&NoiseSession>)
        requires
            self.wf(),
        ensures
            match r {
                Some(s) => self@.sessions.contains_key(peer_id@) && s@
                    == self@.sessions[peer_id@],
                None => !self@.sessions.contains_key(peer_id@),
            },
    {
        self.sessions.get(peer_id)
    }

    /// The session with a peer, to be changed in place.
    pub(crate) fn session_mut(&mut self, peer_id: &str) -> (r: Option<&mut NoiseSession>)
        requires
            old(self).wf(),
        ensures
            final(self).wf(),
            match r {
                Some(s) => {
                    &&& old(self)@.sessions.contains_key(peer_id@)
                    &&& old(self).table().contains_key(peer_id@)
                    &&& *s == old(self).table()[peer_id@]
                    &&& s@ == old(self)@.sessions[peer_id@]
                    &&& final(self).table() == old(self).table().insert(peer_id@, *final(s))
                    &&& final(self)@ == (Sessions {
                        sessions: old(self)@.sessions.insert(peer_id@, final(s)@),
                        ..old(self)@
                    })
                },
                None => !old(self)@.sessions.contains_key(peer_id@) && *final(self) == *old(self),
            },
    {
        let ghost before = *self;
        let ghost after = *final(self);
        match self.sessions.get_mut(peer_id) {
            Some(s) => {
                proof {
                    assert(session_map(after.sessions.map()) =~= before@.sessions.insert(
                        peer_id@,
                        final(s)@,
                    ));
                }
                Some(s)
            },
            None => None,
        }
    }

    /// Applies `f` to the session with a peer, if there is one.
    pub fn with_session<F, R>(&mut self, peer_id: &str, f: F) -> (r: Option<R>) where
        F: FnOnce(&mut NoiseSession) -> R,

        requires
            old(self).wf(),
            forall|s: &mut NoiseSession|
                old(self).table().contains_key(peer_id@) && *s == old(self).table()[peer_id@]
                    ==> #[trigger] f.requires((s,)),
        ensures
            final(self).wf(),
            r is Some <==> old(self).table().contains_key(peer_id@),
            r is None ==> *final(self) == *old(self),
            r is Some ==> final(self).table() == old(self).table().insert(
                peer_id@,
                final(self).table()[peer_id@],
            ),
            r matches Some(x) ==> exists|s: &mut NoiseSession|
                *s == old(self).table()[peer_id@] && *final(s) == final(self).table()[peer_id@]
                    && f.ensures((s,), x),
            final(self)@.local_static == old(self)@.local_static,
            final(self)@.peers == old(self)@.peers,
            final(self)@.attempts == old(self)@.attempts,
    {
        match self.session_mut(peer_id) {
            Some(s) => Some(apply_to(s, f)),
            None => None,
        }
    }

    /// Ends the session with a peer and tells whether there was one.
    pub fn remove_session(&mut self, peer_id: &str) -> (r: bool)
        requires
            old(self).wf(),
        ensures
            final(self).wf(),
            r == old(self)@.sessions.contains_key(peer_id@),
            final(self)@ == without_session(old(self)@, peer_id@),
    {
        let ghost before = self@;
        let removed: bool = self.sessions.remove(peer_id);
        assert(self@.sessions =~= before.sessions.remove(peer_id@));
        removed
    }

    /// The peers whose sessions need rekeying at the given times.
    fn due_when(&self, nows: &Vec<u128>) -> (r: Vec<String>)
        requires
            self.wf(),
            nows@.len() == self@.peers.len(),
        ensures
            texts(r@) == due_peers(self@, nows@),
    {
        let ghost m = self@;
        let mut list: Vec<String> = Vec::new();
        let mut i: usize = 0;
        assert(texts(list@) =~= Seq::<Seq<char>>::empty());
        while i < self.sessions.len()
            invariant
                self.wf(),
                m == self@,
                i <= m.peers.len() == nows@.len(),
                texts(list@) == due_among(m, nows@, i as nat),
            decreases m.peers.len() - i,
        {
            let ghost before = list@;
            let (peer_id, session) = self.sessions.at(i);
            assert(m.sessions[peer_id@] == session@);
            if session.needs_rekeying_at(nows[i]) {
                let name: String = peer_id.clone();
                list.push(name);
                assert(texts(list@) =~= texts(before).push(peer_id@));
            }
            i = i + 1;
        }
        list
    }

    /// The peers whose sessions need rekeying once their clocks show the time `now`.
    pub fn get_sessions_needing_rekey_at(&self, now: u128) -> (r: Vec<String>)
        requires
            self.wf(),
        ensures
            texts(r@) == due_peers(self@, all_at(self@, now)),
    {
        let mut nows: Vec<u128> = Vec::new();
        while nows.len() < self.sessions.len()
            invariant
                self.wf(),
                nows@.len() <= self@.peers.len(),
                forall|i: int| 0 <= i < nows@.len() ==> nows@[i] == now,
            decreases self@.peers.len() - nows@.len(),
        {
            nows.push(now);
        }
        assert(nows@ =~= all_at(self@, now));
        self.due_when(&nows)
    }

    /// The peers whose sessions need rekeying, each by its own clock.
    pub fn get_sessions_needing_rekey(&self) -> (r: Vec<String>)
        requires
            self.wf(),
        ensures
            exists|nows: Seq<u128>|
                nows.len() == self@.peers.len() && texts(r@) == #[trigger] due_peers(self@, nows),
    {
        let mut nows: Vec<u128> = Vec::new();
        let mut i: usize = 0;
        while i < self.sessions.len()
            invariant
                self.wf(),
                i == nows@.len() <= self@.peers.len(),
            decreases self@.peers.len() - i,
        {
            let (_peer_id, session) = self.sessions.at(i);
            nows.push(session.now());
            i = i + 1;
        }
        self.due_when(&nows)
    }

    /// Our static public key.
    pub fn get_local_static_public(&self) -> (r: [u8; 32])
        ensures
            r@ == x25519_public(self@.local_static),
    {
        x25519_public_key(&self.local_static)
    }

    /// The fingerprint of our static key.
    pub fn get_local_fingerprint(&self) -> (r: String)
        ensures
            r@ == fingerprint(x25519_public(self@.local_static)),
            r@.len() == 32,
    {
        key_fingerprint(&self.get_local_static_public())
    }

    /// Whether there is a session with a peer.
    pub fn has_session(&self, peer_id: &str) -> (r: bool)
        requires
            self.wf(),
        ensures
            r == self@.sessions.contains_key(peer_id@),
    {
        self.sessions.contains(peer_id)
    }

    /// Whether the session with a peer is established.
    pub fn is_established(&self, peer_id: &str) -> (r: bool)
        requires
            self.wf(),
        ensures
            r == established_with(self@, peer_id@),
    {
        match self.sessions.get(peer_id) {
            Some(session) => session.is_established(),
            None => false,
        }
    }
}

/// What counting attempts at the given times, one after the other, comes to: the times of those that
/// were admitted, and the attempts that count in the end.
spec fn attempt_run(times: Seq<u128>) -> (Seq<u128>, Seq<u128>)
    decreases times.len(),
{
    if times.len() == 0 {
        (Seq::empty(), Seq::empty())
    } else {
        let (log, attempts) = attempt_run(times.drop_last());
        let (admitted, next) = count_attempt(attempts, times.last());
        (
            if admitted {
                log.push(times.last())
            } else {
                log
            },
            next,
        )
    }
}

/// No time is earlier than the one before it.
pub open spec fn in_order(times: Seq<u128>) -> bool {
    forall|i: int, j: int| 0 <= i <= j < times.len() ==> times[i] <= times[j]
}

/// Of times in order those that still count are the last ones.
proof fn lemma_recent_is_suffix(times: Seq<u128>, now: u128) -> (k: int)
    requires
        in_order(times),
    ensures
        0 <= k <= times.len(),
        recent(times, now) == times.skip(k),
        forall|i: int| 0 <= i < k ==> !counts(#[trigger] times[i], now),
    decreases times.len(),
{
    let keep = |t: u128| counts(t, now);
    reveal(Seq::filter);
    if times.len() == 0 {
        assert(times.filter(keep) =~= times.skip(0));
        0
    } else {
        let head = times.drop_last();
        assert(in_order(head));
        let k = lemma_recent_is_suffix(head, now);
        if keep(times.last()) {
            assert(head.skip(k).push(times.last()) =~= times.skip(k));
            assert forall|i: int| 0 <= i < k implies !counts(#[trigger] times[i], now) by {
                assert(head[i] == times[i]);
            }
            k
        } else {
            let n = times.len() as int;
            assert forall|i: int| 0 <= i < n implies !counts(#[trigger] times[i], now) by {
                assert(times[i] <= times[n - 1]);
            }
            if k < n - 1 {
                assert(head.skip(k)[0] == times[k]);
                assert(counts(recent(head, now)[0], now)) by {
                    lemma_filtered(head, now);
                }
                assert(false);
            }
            assert(times.filter(keep) =~= times.skip(n));
            n
        }
    }
}

/// What is left after the old attempts are dropped still counts.
proof fn lemma_filtered(times: Seq<u128>, now: u128)
    ensures
        forall|i: int|
            0 <= i < recent(times, now).len() ==> counts(#[trigger] recent(times, now)[i], now),
    decreases times.len(),
{
    reveal(Seq::filter);
    if times.len() > 0 {
        lemma_filtered(times.drop_last(), now);
    }
}

/// What comes of beginning a session with one peer at the given times, one after the other: the
/// times at which it was begun, and the sessions in the end.
pub open spec fn create_run(m: Sessions, peer: Seq<char>, role: NoiseRole, times: Seq<u128>) -> (
    Seq<u128>,
    Sessions,
)
    decreases times.len(),
{
    if times.len() == 0 {
        (Seq::empty(), m)
    } else {
        let (log, before) = create_run(m, peer, role, times.drop_last());
        let (outcome, after) = create_step(before, peer, role, times.last());
        (
            if outcome is Ok {
                log.push(times.last())
            } else {
                log
            },
            after,
        )
    }
}

proof fn lemma_create_run(m: Sessions, peer: Seq<char>, role: NoiseRole, times: Seq<u128>)
    requires
        attempts_of(m, peer).len() == 0,
    ensures
        create_run(m, peer, role, times).0 == attempt_run(times).0,
        attempts_of(create_run(m, peer, role, times).1, peer) == attempt_run(times).1,
    decreases times.len(),
{
    if times.len() > 0 {
        lemma_create_run(m, peer, role, times.drop_last());
    } else {
        assert(attempts_of(m, peer) =~= Seq::<u128>::empty());
    }
}

/// However often a session with one peer is to be begun, at most five are within any sixty seconds:
/// the fifth one after another comes at least that much later.
pub proof fn at_most_five_sessions_a_minute(
    m: Sessions,
    peer: Seq<char>,
    role: NoiseRole,
    times: Seq<u128>,
)
    requires
        attempts_of(m, peer).len() == 0,
        in_order(times),
    ensures
        forall|i: int, j: int|
            0 <= i && i + 5 <= j < create_run(m, peer, role, times).0.len() ==> create_run(
                m,
                peer,
                role,
                times,
            ).0[i] + 60 * 1_000_000_000 <= create_run(m, peer, role, times).0[j],
{
    lemma_create_run(m, peer, role, times);
    lemma_attempt_run(times);
}

proof fn lemma_attempt_run(times: Seq<u128>)
    requires
        in_order(times),
    ensures
        ({
            let (log, attempts) = attempt_run(times);
            let dropped = log.len() - attempts.len();
            &&& in_order(log)
            &&& dropped >= 0
            &&& attempts == log.skip(dropped)
            &&& forall|i: int|
                0 <= i < log.len() ==> times.len() > 0 && #[trigger] log[i] <= times.last()
            &&& forall|i: int| 0 <= i < dropped ==> !counts(#[trigger] log[i], times.last())
            &&& forall|i: int, j: int|
                0 <= i && i + 5 <= j < log.len() ==> log[i] + RATE_SECONDS * SECOND <= log[j]
        }),
    decreases times.len(),
{
    let (log, attempts) = attempt_run(times);
    if times.len() == 0 {
        assert(attempts =~= log.skip(0));
    } else {
        let now = times.last();
        let before = times.drop_last();
        assert(in_order(before));
        lemma_attempt_run(before);
        let (old_log, old_attempts) = attempt_run(before);
        let old_dropped = old_log.len() - old_attempts.len();
        assert(before.len() > 0 ==> before.last() == times[times.len() - 2]);
        assert(in_order(old_attempts)) by {
            assert forall|i: int, j: int| 0 <= i <= j < old_attempts.len() implies old_attempts[i]
                <= old_attempts[j] by {
                assert(old_log[old_dropped + i] <= old_log[old_dropped + j]);
            }
        }
        let k = lemma_recent_is_suffix(old_attempts, now);
        let kept = old_attempts.skip(k);
        let dropped = old_dropped + k;
        assert(kept =~= old_log.skip(dropped));
        assert forall|i: int| 0 <= i < dropped implies !counts(#[trigger] old_log[i], now) by {
            if i < old_dropped {
                assert(!counts(old_log[i], before.last()));
            } else {
                assert(old_log[i] == old_attempts[i - old_dropped]);
            }
        }
        if kept.len() >= RATE_LIMIT {
            assert(attempts == kept);
            assert(log == old_log);
        } else {
            assert(attempts =~= log.skip(dropped));
            let n = old_log.len() as int;
            assert forall|i: int, j: int| 0 <= i && i + 5 <= j < log.len() implies log[i]
                + RATE_SECONDS * SECOND <= log[j] by {
                if j == n {
                    assert(i < dropped);
                    assert(!counts(old_log[i], now));
                } else {
                    assert(old_log[i] + RATE_SECONDS * SECOND <= old_log[j]);
                }
            }
        }
    }
}

/// Beginning or ending a session with one peer leaves the sessions with all others, and their
/// limits, as they were.
pub proof fn peers_are_independent(
    m: Sessions,
    peer: Seq<char>,
    role: NoiseRole,
    now: u128,
    other: Seq<char>,
)
    requires
        other != peer,
    ensures
        create_step(m, peer, role, now).1.sessions.contains_key(other) == m.sessions.contains_key(
            other,
        ),
        create_step(m, peer, role, now).1.sessions[other] == m.sessions[other],
        attempts_of(create_step(m, peer, role, now).1, other) == attempts_of(m, other),
        without_session(m, peer).sessions.contains_key(other) == m.sessions.contains_key(other),
        without_session(m, peer).sessions[other] == m.sessions[other],
        attempts_of(without_session(m, peer), other) == attempts_of(m, other),
{
}

/// Ending a session does not make up for having begun it: the attempts still count.
pub proof fn ending_a_session_keeps_its_attempts(m: Sessions, peer: Seq<char>)
    ensures
        attempts_of(without_session(m, peer), peer) == attempts_of(m, peer),
        !established_with(without_session(m, peer), peer),
{
}

} // verus!
