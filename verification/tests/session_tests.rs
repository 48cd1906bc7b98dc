use poh::session::{challenge_cleanup, process, session_cleanup, Challenge, RequestData, Session, SessionState};
use poh::table::KeyedTable;

/// Nanoseconds in a second.
const S: u64 = 1_000_000_000;

fn session(key: &str, time: u64, valid: u64) -> Session {
    Session { state: SessionState::Initialize, client_pub_key: key.to_string(), valid_seconds: valid, time }
}

fn challenge(hash: &str, time: u64) -> Challenge {
    Challenge { pub_hash: hash.to_string(), session_key: "k".to_string(), valid_seconds: 240, time }
}

#[test]
fn session_new_lasts_five_minutes() {
    let s = Session::new("pk", 42);
    assert_eq!(s.client_pub_key, "pk");
    assert_eq!(s.valid_seconds, 300);
    assert_eq!(s.time, 42);
    assert!(matches!(s.state, SessionState::Initialize));
}

#[test]
fn initialize_opens_a_session_once() {
    let mut sessions = KeyedTable::new();
    let mut challenges = KeyedTable::new();
    let r = process(&mut sessions, &mut challenges, SessionState::Initialize, Some(RequestData::Session(session("pk", 1, 300))))
        .ok()
        .unwrap();
    assert_eq!(r.msg, "Initialized a new session");
    assert_eq!(r.session_key, "pk");
    assert_eq!(sessions.len(), 1);
    let r2 = process(&mut sessions, &mut challenges, SessionState::Initialize, Some(RequestData::Session(session("pk", 9, 1))))
        .ok()
        .unwrap();
    assert_eq!(r2.msg, "Session has already been initialized");
    assert_eq!(r2.session_key, "pk");
    assert_eq!(sessions.len(), 1);
    assert_eq!(sessions.get(&"pk".to_string()).unwrap().time, 1);
}

#[test]
fn initialize_with_challenge_is_refused() {
    let mut sessions = KeyedTable::new();
    let mut challenges = KeyedTable::new();
    let r = process(&mut sessions, &mut challenges, SessionState::Initialize, Some(RequestData::Challenge(challenge("h", 0))));
    assert_eq!(r.err(), Some("Invalid arguments"));
    assert_eq!(sessions.len(), 0);
    assert_eq!(challenges.len(), 0);
}

#[test]
fn challenge_create_stores_challenge() {
    let mut sessions: KeyedTable<Session> = KeyedTable::new();
    let mut challenges = KeyedTable::new();
    let r = process(&mut sessions, &mut challenges, SessionState::ChallengeCreate, Some(RequestData::Challenge(challenge("h", 3))))
        .ok()
        .unwrap();
    assert_eq!(r.msg, "Challenge created");
    assert_eq!(r.session_key, "");
    assert_eq!(challenges.get(&"h".to_string()).unwrap().time, 3);
    process(&mut sessions, &mut challenges, SessionState::ChallengeCreate, Some(RequestData::Challenge(challenge("h", 5))))
        .ok()
        .unwrap();
    assert_eq!(challenges.len(), 1);
    assert_eq!(challenges.get(&"h".to_string()).unwrap().time, 5);
}

#[test]
fn challenge_create_with_session_is_refused() {
    let mut sessions = KeyedTable::new();
    let mut challenges: KeyedTable<Challenge> = KeyedTable::new();
    let r = process(&mut sessions, &mut challenges, SessionState::ChallengeCreate, Some(RequestData::Session(session("pk", 0, 300))));
    assert_eq!(r.err(), Some("Failed to create challenge"));
    assert_eq!(sessions.len(), 0);
}

#[test]
fn challenge_reply_is_not_implemented() {
    let mut sessions: KeyedTable<Session> = KeyedTable::new();
    let mut challenges: KeyedTable<Challenge> = KeyedTable::new();
    let r = process(&mut sessions, &mut challenges, SessionState::ChallengeReply, None);
    assert_eq!(r.err(), Some("Not implemented yet"));
}

#[test]
fn session_cleanup_removes_only_expired() {
    let mut sessions = KeyedTable::new();
    sessions.insert("old".to_string(), session("old", 0, 300));
    sessions.insert("edge".to_string(), session("edge", 100 * S, 300));
    sessions.insert("new".to_string(), session("new", 350 * S, 300));
    let removed = session_cleanup(&mut sessions, 400 * S);
    assert_eq!(removed, vec!["old".to_string()]);
    assert!(sessions.contains_key(&"edge".to_string()));
    assert!(sessions.contains_key(&"new".to_string()));
    assert!(session_cleanup(&mut sessions, 400 * S).is_empty());
    assert!(session_cleanup(&mut sessions, 401 * S - 1).is_empty());
    let removed = session_cleanup(&mut sessions, 401 * S);
    assert_eq!(removed, vec!["edge".to_string()]);
}

#[test]
fn cleanup_counts_clock_before_creation_as_no_age() {
    let mut sessions = KeyedTable::new();
    sessions.insert("s".to_string(), session("s", 1000 * S, 0));
    assert!(session_cleanup(&mut sessions, 10 * S).is_empty());
    assert_eq!(sessions.len(), 1);
}

#[test]
fn cleanup_counts_whole_seconds() {
    let mut sessions = KeyedTable::new();
    sessions.insert("s".to_string(), session("s", S / 2, 0));
    assert!(session_cleanup(&mut sessions, S + S / 2 - 1).is_empty());
    assert_eq!(session_cleanup(&mut sessions, S + S / 2), vec!["s".to_string()]);
}

#[test]
fn challenge_cleanup_removes_expired() {
    let mut challenges = KeyedTable::new();
    challenges.insert("a".to_string(), challenge("a", 0));
    challenges.insert("b".to_string(), challenge("b", 100 * S));
    let removed = challenge_cleanup(&mut challenges, 300 * S);
    assert_eq!(removed, vec!["a".to_string()]);
    assert_eq!(challenges.len(), 1);
}
