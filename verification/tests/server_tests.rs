use poh::keys::{hash_string, Cert, Database, DatabaseEntry, KeyMaster, RootCert, RootCerts};
use poh::server::{challenge_create_response, challenge_reply_response, PohServer};

fn setup(record_issuer: Option<&str>) -> (PohServer, Cert) {
    let ca = KeyMaster::new(None);
    let mut roots = RootCerts::new();
    roots.add_rootcert(&RootCert { public_key: ca.public_key().clone(), time: "t".to_string(), issuer: "ca-1".to_string() });
    let (cert, _keys) = Cert::generate(ca, "ca-1", "pw", "t".to_string());
    let mut db = Database::new();
    if let Some(issuer) = record_issuer {
        db.entries.insert(
            hash_string(&cert.public_key),
            DatabaseEntry { time: "t".to_string(), issuer: issuer.to_string(), public_key: cert.public_key.clone() },
        );
    }
    (PohServer::new(roots, KeyMaster::new(None), db), cert)
}

#[test]
fn issued_and_recorded_client_is_admitted_once() {
    let (mut server, cert) = setup(Some("ca-1"));
    let r = server.initialize(&cert.public_key, &cert.signature, 10);
    assert!(r.valid);
    assert_eq!(r.msg, "Initialized a new session");
    assert_eq!(r.session_key, cert.public_key);
    let s = server.sessions.get(&cert.public_key).unwrap();
    assert_eq!(s.time, 10);
    assert_eq!(s.valid_seconds, 300);
    let r2 = server.initialize(&cert.public_key, &cert.signature, 20);
    assert!(r2.valid);
    assert_eq!(r2.msg, "Session has already been initialized");
    assert_eq!(server.sessions.len(), 1);
}

#[test]
fn unrecorded_client_is_refused() {
    let (mut server, cert) = setup(None);
    let r = server.initialize(&cert.public_key, &cert.signature, 10);
    assert!(!r.valid);
    assert_eq!(r.msg, "Checked client validity");
    assert_eq!(r.session_key, "");
    assert_eq!(server.sessions.len(), 0);
}

#[test]
fn client_recorded_with_other_issuer_is_refused() {
    let (mut server, cert) = setup(Some("someone else"));
    assert!(!server.initialize(&cert.public_key, &cert.signature, 10).valid);
}

#[test]
fn client_signed_by_unknown_authority_is_refused() {
    let (mut server, _cert) = setup(Some("ca-1"));
    let rogue = KeyMaster::new(None);
    let (cert, _) = Cert::generate(rogue, "ca-1", "pw", "t".to_string());
    server.database.entries.insert(
        hash_string(&cert.public_key),
        DatabaseEntry { time: "t".to_string(), issuer: "ca-1".to_string(), public_key: cert.public_key.clone() },
    );
    assert!(!server.initialize(&cert.public_key, &cert.signature, 10).valid);
}

#[test]
fn try_initialize_refuses_malformed_signature() {
    let (mut server, cert) = setup(Some("ca-1"));
    assert!(server.try_initialize(&cert.public_key, "garbage", 1).is_none());
    assert_eq!(server.sessions.len(), 0);
    assert!(server.try_initialize(&cert.public_key, &cert.signature, 1).unwrap().valid);
}

#[test]
fn challenge_handlers_answer_not_implemented() {
    let r = challenge_create_response();
    assert!(!r.valid);
    assert_eq!(r.info, "not implemented yet");
    let r = challenge_reply_response();
    assert!(!r.valid);
    assert_eq!(r.info, "");
}

#[test]
fn without_root_certificates_no_client_is_admitted() {
    let ca = KeyMaster::new(None);
    let (cert, _keys) = Cert::generate(ca, "ca-1", "pw", "t".to_string());
    let mut db = Database::new();
    db.entries.insert(
        hash_string(&cert.public_key),
        DatabaseEntry { time: "t".to_string(), issuer: "".to_string(), public_key: cert.public_key.clone() },
    );
    let mut server = PohServer::new(RootCerts::new(), KeyMaster::new(None), db);
    let r = server.initialize(&cert.public_key, "not even a signature", 0);
    assert!(!r.valid);
    assert_eq!(server.sessions.len(), 0);
}

#[test]
fn issuer_of_last_accepting_root_is_required() {
    let ca = KeyMaster::new(None);
    let mut roots = RootCerts::new();
    roots.add_rootcert(&RootCert { public_key: ca.public_key().clone(), time: "t".to_string(), issuer: "first".to_string() });
    roots.add_rootcert(&RootCert { public_key: ca.public_key().clone(), time: "t".to_string(), issuer: "second".to_string() });
    let (cert, _keys) = Cert::generate(ca, "x", "pw", "t".to_string());
    let mut db = Database::new();
    db.entries.insert(
        hash_string(&cert.public_key),
        DatabaseEntry { time: "t".to_string(), issuer: "first".to_string(), public_key: cert.public_key.clone() },
    );
    let mut server = PohServer::new(roots, KeyMaster::new(None), db);
    assert!(!server.initialize(&cert.public_key, &cert.signature, 0).valid);
    server.database.entries.insert(
        hash_string(&cert.public_key),
        DatabaseEntry { time: "t".to_string(), issuer: "second".to_string(), public_key: cert.public_key.clone() },
    );
    assert!(server.initialize(&cert.public_key, &cert.signature, 0).valid);
}
