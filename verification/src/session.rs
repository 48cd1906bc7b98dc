//! The server's bookkeeping of client sessions and challenges: the state
//! machine that a request drives, and the removal of expired entries.
//!
//! Times are nanoseconds on the server's monotonic clock, read by the
//! caller and handed in; an entry's age counts in whole seconds, as a
//! `Duration`'s `as_secs` does.

use vstd::prelude::*;
use crate::table::KeyedTable;

verus! {

broadcast use vstd::string::group_string_axioms;

/// The step of the protocol a request belongs to.
pub enum SessionState {
    Initialize,
    ChallengeCreate,
    ChallengeReply,
}

/// A client session, keyed by the client's public key.
pub struct Session {
    pub state: SessionState,
    pub client_pub_key: String,
    /// How long the session stays valid, in seconds.
    pub valid_seconds: u64,
    /// When the session was created, in nanoseconds on the server's clock.
    pub time: u64,
}

/// A challenge, keyed by the hash of the challenged public key.
pub struct Challenge {
    pub pub_hash: String,
    pub session_key: String,
    /// How long the challenge stays valid, in seconds.
    pub valid_seconds: u64,
    /// When the challenge was created, in nanoseconds on the server's clock.
    pub time: u64,
}

/// What a request brings along.
pub enum RequestData {
    Challenge(Challenge),
    Session(Session),
}

/// What a successful step answers.
pub struct ProcessResult {
    pub msg: String,
    pub session_key: String,
}

/// A session's default lifetime: five minutes.
pub const DEFAULT_SESSION_SECONDS: u64 = 300;

impl Session {
    /// A fresh session for `public_key`, created at `now`, valid for five
    /// minutes, in the initial state.
    pub fn new(public_key: &str, now: u64) -> (s: Session)
        ensures
            s.state is Initialize,
            s.client_pub_key@ == public_key@,
            s.valid_seconds == 300,
            s.time == now,
    {
        Session {
            state: SessionState::Initialize,
            valid_seconds: DEFAULT_SESSION_SECONDS,
            time: now,
            client_pub_key: public_key.to_string(),
        }
    }
}

/// The time elapsed since `time` when the clock reads `now`, in
/// nanoseconds; a clock that reads earlier than `time` counts as no time
/// elapsed.
pub open spec fn age(time: u64, now: u64) -> int {
    if now >= time {
        now - time
    } else {
        0
    }
}

/// Nanoseconds in a second.
pub const NANOS_PER_SECOND: u64 = 1_000_000_000;

/// An entry created at `time`, valid for `valid_seconds`, has expired at
/// `now` once its age in whole seconds exceeds its lifetime.
pub open spec fn expired(time: u64, valid_seconds: u64, now: u64) -> bool {
    age(time, now) / (NANOS_PER_SECOND as int) > valid_seconds
}

/// Something that is created at a time and stays valid for a while.
pub trait Expiring {
    spec fn spec_created_at(&self) -> u64;

    spec fn spec_lifetime(&self) -> u64;

    fn created_at(&self) -> (t: u64)
        ensures
            t == self.spec_created_at(),
    ;

    fn lifetime(&self) -> (v: u64)
        ensures
            v == self.spec_lifetime(),
    ;
}

impl Expiring for Session {
    open spec fn spec_created_at(&self) -> u64 {
        self.time
    }

    open spec fn spec_lifetime(&self) -> u64 {
        self.valid_seconds
    }

    fn created_at(&self) -> (t: u64) {
        self.time
    }

    fn lifetime(&self) -> (v: u64) {
        self.valid_seconds
    }
}

impl Expiring for Challenge {
    open spec fn spec_created_at(&self) -> u64 {
        self.time
    }

    open spec fn spec_lifetime(&self) -> u64 {
        self.valid_seconds
    }

    fn created_at(&self) -> (t: u64) {
        self.time
    }

    fn lifetime(&self) -> (v: u64) {
        self.valid_seconds
    }
}

/// Whether `e` has expired at `now`.
pub open spec fn is_expired<V: Expiring>(e: V, now: u64) -> bool {
    expired(e.spec_created_at(), e.spec_lifetime(), now)
}

/// The keys of `m` whose entries are still valid at `now`.
pub open spec fn live_keys<V: Expiring>(m: Map<Seq<char>, V>, now: u64) -> Set<Seq<char>> {
    Set::new(|k: Seq<char>| m.dom().contains(k) && !is_expired(m[k], now))
}

/// What stays of `m` once the entries that expired by `now` are removed.
pub open spec fn without_expired<V: Expiring>(m: Map<Seq<char>, V>, now: u64) -> Map<Seq<char>, V> {
    m.restrict(live_keys(m, now))
}

/// Whether the entry has expired at `now`.
fn entry_expired<V: Expiring>(e: &V, now: u64) -> (b: bool)
    ensures
        b == is_expired(*e, now),
{
    let time = e.created_at();
    let age: u64 = if now >= time { now - time } else { 0 };
    age / NANOS_PER_SECOND > e.lifetime()
}

/// The views of a list of strings.
pub open spec fn string_views(v: Seq<String>) -> Seq<Seq<char>> {
    v.map_values(|s: String| s@)
}

/// Removes every entry that has expired at `now`; returns the keys removed,
/// in the table's key order.
fn remove_expired<V: Expiring>(table: &mut KeyedTable<V>, now: u64) -> (removed: Vec<String>)
    ensures
        final(table)@ == without_expired(old(table)@, now),
        string_views(removed@).no_duplicates(),
        forall|k: Seq<char>|
            #![trigger string_views(removed@).contains(k)]
            string_views(removed@).contains(k) <==> (old(table)@.dom().contains(k) && is_expired(
                old(table)@[k],
                now,
            )),
{
    let ghost m0 = table@;
    let keys = table.keys();
    let mut remove: Vec<String> = Vec::new();
    // Where in `keys` each removed key stands.
    let ghost mut idx: Seq<int> = Seq::empty();
    let mut i: usize = 0;
    while i < keys.len()
        invariant
            table@ == m0,
            i <= keys@.len(),
            idx.len() == remove@.len(),
            forall|a: int| 0 <= a < idx.len() ==> 0 <= #[trigger] idx[a] < i && remove@[a]@ == keys@[idx[a]]@,
            forall|a: int, b: int| 0 <= a < b < idx.len() ==> #[trigger] idx[a] < #[trigger] idx[b],
            keys@.len() == table.key_order().len(),
            forall|j: int| 0 <= j < keys@.len() ==> (#[trigger] keys@[j])@ == table.key_order()[j],
            forall|k: Seq<char>| table@.dom().contains(k) <==> table.key_order().contains(k),
            forall|x: Seq<char>|
                #![trigger string_views(remove@).contains(x)]
                string_views(remove@).contains(x) ==> (m0.dom().contains(x) && is_expired(m0[x], now)),
            forall|j: int|
                0 <= j < i ==> (is_expired(m0[(#[trigger] keys@[j])@], now) ==> string_views(
                    remove@,
                ).contains(keys@[j]@)),
        decreases keys@.len() - i,
    {
        let key = &keys[i];
        proof {
            assert(table.key_order().contains(key@)) by {
                assert(table.key_order()[i as int] == key@);
            }
        }
        match table.get(key) {
            Some(v) => {
                if entry_expired(v, now) {
                    let ghost before = remove@;
                    remove.push(key.clone());
                    proof {
                        idx = idx.push(i as int);
                        assert(string_views(remove@) =~= string_views(before).push(key@));
                        assert forall|x: Seq<char>|
                            #![trigger string_views(remove@).contains(x)]
                            string_views(remove@).contains(x) implies (m0.dom().contains(x)
                                && is_expired(m0[x], now)) by {
                            if x != key@ {
                                let w = choose|w: int| 0 <= w < string_views(remove@).len() && string_views(remove@)[w] == x;
                                assert(w < string_views(before).len());
                                assert(string_views(before)[w] == x);
                                assert(string_views(before).contains(x));
                            } else {
                                assert(m0.dom().contains(key@));
                                assert(is_expired(m0[key@], now));
                            }
                        }
                        assert forall|j: int|
                            0 <= j <= i && is_expired(m0[(#[trigger] keys@[j])@], now) implies string_views(
                                remove@,
                            ).contains(keys@[j]@) by {
                            if j < i && is_expired(m0[keys@[j]@], now) {
                                let w = choose|w: int| 0 <= w < string_views(before).len() && string_views(before)[w] == keys@[j]@;
                                assert(string_views(remove@)[w] == keys@[j]@);
                            }
                            if j == i {
                                assert(string_views(remove@)[remove@.len() - 1] == key@);
                            }
                        }
                    }
                }
            },
            None => {},
        }
        i = i + 1;
    }
    // Every expired key of the table is now listed, once.
    proof {
        assert forall|a: int, b: int|
            0 <= a < string_views(remove@).len() && 0 <= b < string_views(remove@).len() && a != b implies string_views(
                remove@,
            )[a] != string_views(remove@)[b] by {
            if a < b {
                assert(idx[a] < idx[b]);
                assert(keys@[idx[a]]@ != keys@[idx[b]]@);
            } else {
                assert(idx[b] < idx[a]);
                assert(keys@[idx[b]]@ != keys@[idx[a]]@);
            }
        }
        assert forall|k: Seq<char>|
            #![trigger string_views(remove@).contains(k)]
            string_views(remove@).contains(k) <==> (m0.dom().contains(k) && is_expired(m0[k], now)) by {
            if m0.dom().contains(k) && is_expired(m0[k], now) {
                assert(table.key_order().contains(k));
                let j = choose|j: int| 0 <= j < table.key_order().len() && table.key_order()[j] == k;
                assert(keys@[j]@ == k);
            }
        }
    }
    let mut j: usize = 0;
    while j < remove.len()
        invariant
            j <= remove@.len(),
            string_views(remove@).no_duplicates(),
            forall|k: Seq<char>|
                #![trigger string_views(remove@).contains(k)]
                string_views(remove@).contains(k) <==> (m0.dom().contains(k) && is_expired(m0[k], now)),
            forall|k: Seq<char>|
                #[trigger] table@.dom().contains(k) <==> (m0.dom().contains(k) && !string_views(
                    remove@.subrange(0, j as int),
                ).contains(k)),
            forall|k: Seq<char>| #[trigger] table@.dom().contains(k) ==> table@[k] == m0[k],
        decreases remove@.len() - j,
    {
        let ghost before = table@;
        table.remove(&remove[j]);
        proof {
            let done = string_views(remove@.subrange(0, j as int));
            let done2 = string_views(remove@.subrange(0, j + 1));
            assert forall|k: Seq<char>| #[trigger] table@.dom().contains(k) implies table@[k] == m0[k] by {
                assert(before.dom().contains(k));
            }
            assert(done2 =~= done.push(remove@[j as int]@));
            assert forall|k: Seq<char>|
                #[trigger] table@.dom().contains(k) <==> (m0.dom().contains(k) && !done2.contains(k)) by {
                assert(before.dom().contains(k) <==> (m0.dom().contains(k) && !done.contains(k)));
                assert(done2[done.len() as int] == remove@[j as int]@);
                if done.contains(k) {
                    let w = choose|w: int| 0 <= w < done.len() && done[w] == k;
                    assert(done2[w] == k);
                }
                if done2.contains(k) && k != remove@[j as int]@ {
                    let w = choose|w: int| 0 <= w < done2.len() && done2[w] == k;
                    assert(w < done.len());
                    assert(done[w] == k);
                }
            }
        }
        j = j + 1;
    }
    proof {
        assert(remove@.subrange(0, remove@.len() as int) =~= remove@);
        assert(table@ =~= without_expired(m0, now));
    }
    remove
}

/// Removes the sessions that have expired at `now`; returns the keys of the
/// sessions removed.
pub fn session_cleanup(sessions: &mut KeyedTable<Session>, now: u64) -> (removed: Vec<String>)
    ensures
        final(sessions)@ == without_expired(old(sessions)@, now),
        string_views(removed@).no_duplicates(),
        forall|k: Seq<char>|
            #![trigger string_views(removed@).contains(k)]
            string_views(removed@).contains(k) <==> (old(sessions)@.dom().contains(k) && is_expired(
                old(sessions)@[k],
                now,
            )),
{
    remove_expired(sessions, now)
}

/// Removes the challenges that have expired at `now`; returns the keys of
/// the challenges removed.
pub fn challenge_cleanup(challenges: &mut KeyedTable<Challenge>, now: u64) -> (removed: Vec<String>)
    ensures
        final(challenges)@ == without_expired(old(challenges)@, now),
        string_views(removed@).no_duplicates(),
        forall|k: Seq<char>|
            #![trigger string_views(removed@).contains(k)]
            string_views(removed@).contains(k) <==> (old(challenges)@.dom().contains(k)
                && is_expired(old(challenges)@[k], now)),
{
    remove_expired(challenges, now)
}


/// The sessions after an Initialize request with session `s`: `s` is stored
/// under its client's public key unless a session is stored there already.
pub open spec fn sessions_after_initialize(m: Map<Seq<char>, Session>, s: Session) -> Map<Seq<char>, Session> {
    if m.dom().contains(s.client_pub_key@) {
        m
    } else {
        m.insert(s.client_pub_key@, s)
    }
}

/// What an Initialize request with session `s` is answered.
pub open spec fn initialize_message(m: Map<Seq<char>, Session>, s: Session) -> Seq<char> {
    if m.dom().contains(s.client_pub_key@) {
        "Session has already been initialized"@
    } else {
        "Initialized a new session"@
    }
}

/// Answers a request for protocol step `state`.
///
/// - Initialize, with a session: the session is stored under its client's
///   public key unless one is stored there already; either way the answer
///   names that key as the session key.
/// - Initialize, with a challenge: refused, nothing changes.
/// - ChallengeCreate, with a challenge: the challenge is stored under its
///   public-key hash, replacing any stored there.
/// - ChallengeCreate, with a session: refused, nothing changes.
/// - ChallengeReply: not implemented; refused, nothing changes.
pub fn process(
    sessions: &mut KeyedTable<Session>,
    challenges: &mut KeyedTable<Challenge>,
    state: SessionState,
    request_data: Option<RequestData>,
) -> (r: Result<ProcessResult, &'static str>)
    requires
        !(state is ChallengeReply) ==> request_data is Some,
    ensures
        match state {
            SessionState::Initialize => match request_data.unwrap() {
                RequestData::Session(s) => {
                    &&& r matches Ok(res)
                    &&& r->Ok_0.session_key@ == s.client_pub_key@
                    &&& r->Ok_0.msg@ == initialize_message(old(sessions)@, s)
                    &&& final(sessions)@ == sessions_after_initialize(old(sessions)@, s)
                    &&& !old(sessions)@.dom().contains(s.client_pub_key@) ==> final(sessions)@ == old(
                        sessions,
                    )@.insert(s.client_pub_key@, s)
                    &&& old(sessions)@.dom().contains(s.client_pub_key@) ==> final(sessions)@ == old(sessions)@
                    &&& final(challenges)@ == old(challenges)@
                },
                RequestData::Challenge(_) => {
                    &&& r matches Err(e) && e@ == "Invalid arguments"@
                    &&& final(sessions)@ == old(sessions)@
                    &&& final(challenges)@ == old(challenges)@
                },
            },
            SessionState::ChallengeCreate => match request_data.unwrap() {
                RequestData::Challenge(c) => {
                    &&& r matches Ok(res)
                    &&& r->Ok_0.session_key@ == Seq::<char>::empty()
                    &&& r->Ok_0.msg@ == "Challenge created"@
                    &&& final(sessions)@ == old(sessions)@
                    &&& final(challenges)@ == old(challenges)@.insert(c.pub_hash@, c)
                },
                RequestData::Session(_) => {
                    &&& r matches Err(e) && e@ == "Failed to create challenge"@
                    &&& final(sessions)@ == old(sessions)@
                    &&& final(challenges)@ == old(challenges)@
                },
            },
            SessionState::ChallengeReply => {
                &&& r matches Err(e) && e@ == "Not implemented yet"@
                &&& final(sessions)@ == old(sessions)@
                &&& final(challenges)@ == old(challenges)@
            },
        },
{
    match state {
        SessionState::Initialize => {
            match request_data.unwrap() {
                RequestData::Session(s) => {
                    let key = s.client_pub_key.clone();
                    if sessions.contains_key(&key) {
                        Ok(ProcessResult {
                            session_key: key,
                            msg: "Session has already been initialized".to_string(),
                        })
                    } else {
                        sessions.insert(key.clone(), s);
                        Ok(ProcessResult { session_key: key, msg: "Initialized a new session".to_string() })
                    }
                },
                _ => Err("Invalid arguments"),
            }
        },
        SessionState::ChallengeCreate => {
            match request_data.unwrap() {
                RequestData::Challenge(challenge) => {
                    let key = challenge.pub_hash.clone();
                    challenges.insert(key, challenge);
                    Ok(ProcessResult { session_key: String::new(), msg: "Challenge created".to_string() })
                },
                _ => Err("Failed to create challenge"),
            }
        },
        SessionState::ChallengeReply => Err("Not implemented yet"),
    }
}


/// Initializing is idempotent: once a session for a client's key is open,
/// a second Initialize for the same key (with whatever session) changes
/// nothing and is answered that the session has already been initialized.
pub proof fn law_initialize_idempotent(m: Map<Seq<char>, Session>, first: Session, second: Session)
    requires
        first.client_pub_key@ == second.client_pub_key@,
    ensures
        sessions_after_initialize(sessions_after_initialize(m, first), second) == sessions_after_initialize(m, first),
        initialize_message(sessions_after_initialize(m, first), second) == "Session has already been initialized"@,
        sessions_after_initialize(m, first).dom().contains(first.client_pub_key@),
{
}

/// Initializing a client with no open session stores the request's session
/// exactly as it came (its state, key, lifetime and creation time), under
/// the client's public key, and adds no other key.
pub proof fn law_initialize_stores_session_as_given(m: Map<Seq<char>, Session>, s: Session)
    requires
        !m.dom().contains(s.client_pub_key@),
    ensures
        sessions_after_initialize(m, s).dom().contains(s.client_pub_key@),
        sessions_after_initialize(m, s)[s.client_pub_key@] == s,
        sessions_after_initialize(m, s)[s.client_pub_key@].valid_seconds == s.valid_seconds,
        sessions_after_initialize(m, s)[s.client_pub_key@].time == s.time,
        sessions_after_initialize(m, s).dom() == m.dom().insert(s.client_pub_key@),
        initialize_message(m, s) == "Initialized a new session"@,
{
}

/// Initializing never closes or changes another client's session.
pub proof fn law_initialize_keeps_others(m: Map<Seq<char>, Session>, s: Session, k: Seq<char>)
    requires
        k != s.client_pub_key@,
    ensures
        sessions_after_initialize(m, s).dom().contains(k) == m.dom().contains(k),
        m.dom().contains(k) ==> sessions_after_initialize(m, s)[k] == m[k],
{
}

/// Cleaning up twice at the same time removes nothing more.
pub proof fn law_cleanup_idempotent<V: Expiring>(m: Map<Seq<char>, V>, now: u64)
    ensures
        without_expired(without_expired(m, now), now) == without_expired(m, now),
{
    assert(without_expired(without_expired(m, now), now) =~= without_expired(m, now));
}

/// Cleanup keeps exactly the entries still valid, unchanged.
pub proof fn law_cleanup_keeps_live<V: Expiring>(m: Map<Seq<char>, V>, now: u64, k: Seq<char>)
    ensures
        without_expired(m, now).dom().contains(k) <==> (m.dom().contains(k) && !is_expired(m[k], now)),
        without_expired(m, now).dom().contains(k) ==> without_expired(m, now)[k] == m[k],
{
}

/// A later cleanup removes at least what an earlier one would.
pub proof fn law_cleanup_monotone<V: Expiring>(m: Map<Seq<char>, V>, earlier: u64, later: u64)
    requires
        earlier <= later,
    ensures
        without_expired(m, later).dom().subset_of(without_expired(m, earlier).dom()),
{
    assert forall|k: Seq<char>| without_expired(m, later).dom().contains(k) implies without_expired(
        m,
        earlier,
    ).dom().contains(k) by {
        let e = m[k];
        let a0 = age(e.spec_created_at(), earlier);
        let a1 = age(e.spec_created_at(), later);
        assert(a0 <= a1);
        vstd::arithmetic::div_mod::lemma_div_is_ordered(a0, a1, NANOS_PER_SECOND as int);
    }
}

/// A session opened at `created` survives every cleanup until five minutes
/// and one second have passed, and is removed by any cleanup after that.
pub proof fn law_session_lives_five_minutes(s: Session, created: u64, now: u64)
    requires
        s.time == created,
        s.valid_seconds == 300,
        created <= now,
    ensures
        !is_expired(s, now) <==> now - created < 301 * NANOS_PER_SECOND,
{
    let a = now - created;
    assert(age(created, now) == a);
    assert(a / 1_000_000_000 > 300 <==> a >= 301_000_000_000) by (nonlinear_arith)
        requires a >= 0;
}

} // verus!
