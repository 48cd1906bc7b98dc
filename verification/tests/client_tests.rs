use poh::client::{challenge_request, initialize_request, try_challenge_request};
use poh::keys::{hash_string, secp256k1_decrypt, Cert, KeyMaster};
use poh::pylib;

#[test]
fn initialize_request_signs_digest_of_session_key() {
    let ca = KeyMaster::new(None);
    let (cert, client) = Cert::generate(ca, "ca", "pw", "t".to_string());
    let session_keys = KeyMaster::new(None);
    let req = initialize_request(&client, &cert, &session_keys);
    assert_eq!(&req.msg, session_keys.public_key());
    assert_eq!(&req.pub_key, client.public_key());
    assert_eq!(req.cert, cert.signature);
    assert!(client.verify(hash_string(session_keys.public_key()), req.msg_sig.clone()));
}

#[test]
fn challenge_request_encrypts_identity_to_session_key() {
    let session = KeyMaster::new(None);
    let who = hash_string("made up id");
    let (req, settings) = challenge_request(session.public_key(), &who);
    assert_eq!(&req.session_key, session.public_key());
    assert_eq!(req.valid_time_sec, 240);
    assert_eq!(secp256k1_decrypt(session.secret_key(), &req.pub_hash_enc), (Some(who.clone()), settings));
    assert!(try_challenge_request("bad key", &who).is_none());
}

#[test]
fn python_binding_certificate_and_roots() {
    let ca = KeyMaster::new(None);
    let ca_pk = ca.public_key().clone();
    let (cert, keys) = pylib::Cert::new(ca, "pw");
    assert_eq!(&cert.public_key, keys.public_key());
    assert!(keys.verify_with_public_key(&ca_pk, &cert.public_key, &cert.signature));
    let mut roots = pylib::RootCerts::new();
    roots.add_pub_key(&ca_pk, 3);
    assert_eq!(roots.certs[0].era, 3);
    assert_eq!(pylib::import_message("f"), "Keys imported from file: f");
    assert_eq!(pylib::RootCerts::get_filename(), "poh_rootcert.pohrc");
}
