use poh::crypto::EciesSettings;
use poh::keys::{
    export_message, file_in, hash_string, secp256k1_decrypt, secp256k1_encrypt,
    try_secp256k1_encrypt, Cert, Database, DatabaseEntry, KeyMaster, KeyPair, RootCert, RootCerts,
};

const SK_ONE: &str = "0000000000000000000000000000000000000000000000000000000000000001";
const PK_ONE: &str = "0279be667ef9dcbbac55a06295ce870b07029bfcdb2dce28d959f2815b16f81798";
const PK_ONE_UNCOMPRESSED: &str = "0479BE667EF9DCBBAC55A06295CE870B07029BFCDB2DCE28D959F2815B16F81798483ADA7726A3C4655DA4FBFC0E1108A8FD17B448A68554199C47D08FFB10D4B8";

#[test]
fn new_key_master_has_default_passphrase() {
    let km = KeyMaster::new(None);
    assert_eq!(km.passphrase(), "Default passphrase");
    assert_eq!(km.secret_key().len(), 64);
    assert_eq!(km.public_key().len(), 66);
    let km2 = KeyMaster::new(Some("hunter2"));
    assert_eq!(km2.passphrase(), "hunter2");
    assert_ne!(km.secret_key(), km2.secret_key());
}

#[test]
fn signature_verifies_for_signed_message_only() {
    let km = KeyMaster::new(None);
    let sig = km.sign("hello".to_string());
    assert!(km.verify("hello".to_string(), sig.clone()));
    assert!(!km.verify("hellO".to_string(), sig.clone()));
    let other = KeyMaster::new(None);
    assert!(!other.verify("hello".to_string(), sig.clone()));
    assert!(other.verify_with_public_key(km.public_key(), "hello", &sig));
}

#[test]
fn signing_is_deterministic() {
    let mut km = KeyMaster::new(None);
    km.holding_these(SK_ONE, PK_ONE);
    assert_eq!(km.sign("abc".to_string()), km.sign("abc".to_string()));
}

#[test]
fn try_verify_refuses_malformed_signature() {
    let km = KeyMaster::new(None);
    assert_eq!(km.try_verify("m".to_string(), "not a signature".to_string()), None);
    let sig = km.sign("m".to_string());
    assert_eq!(km.try_verify("m".to_string(), sig.clone()), Some(true));
    assert_eq!(km.try_verify_with_public_key("zz", "m", &sig), None);
    assert_eq!(km.try_verify_with_public_key(km.public_key(), "m", &sig), Some(true));
}

#[test]
fn holding_these_normalizes_key_text() {
    let mut km = KeyMaster::new(Some("p"));
    km.holding_these(&SK_ONE.to_uppercase(), PK_ONE_UNCOMPRESSED);
    assert_eq!(km.secret_key(), SK_ONE);
    assert_eq!(km.public_key(), PK_ONE);
    assert_eq!(km.passphrase(), "p");
    let sig = km.sign("message".to_string());
    assert!(km.verify("message".to_string(), sig));
}

#[test]
fn holding_these_checked_refuses_bad_keys() {
    let mut km = KeyMaster::new(None);
    let before = km.secret_key().clone();
    assert!(!km.holding_these_checked("00", PK_ONE));
    assert_eq!(km.secret_key(), &before);
    let zero = "0000000000000000000000000000000000000000000000000000000000000000";
    assert!(!km.holding_these_checked(zero, PK_ONE));
    assert!(km.holding_these_checked(SK_ONE, PK_ONE));
    assert_eq!(km.secret_key(), SK_ONE);
}

#[test]
fn new_certificate_is_100_alphanumerics_and_signed() {
    let km = KeyMaster::new(None);
    let (msg, sig) = km.new_certificate();
    assert_eq!(msg.len(), 100);
    assert!(msg.chars().all(|c| c.is_ascii_alphanumeric()));
    assert!(km.verify(msg, sig));
}

#[test]
fn import_key_pair_round_trip() {
    let km = KeyMaster::new(None);
    let kp = km.key_pair();
    let back = KeyMaster::import_key_pair(&kp, "pass");
    assert_eq!(back.secret_key(), km.secret_key());
    assert_eq!(back.public_key(), km.public_key());
    assert_eq!(back.passphrase(), "pass");
    let bad = KeyPair { public_key: "x".to_string(), secret_key: SK_ONE.to_string() };
    assert!(KeyMaster::try_import_key_pair(&bad, "pass").is_none());
}

#[test]
fn hash_string_is_sha256_hex() {
    assert_eq!(hash_string("abc"), "ba7816bf8f01cfea414140de5dae2223b00361a396177a9cb410ff61f20015ad");
    assert_eq!(hash_string(""), "e3b0c44298fc1c149afbf4c8996fb92427ae41e4649b934ca495991b7852b855");
}

#[test]
fn key_file_bytes_are_rc4_of_serialized_pair() {
    let data = KeyPair::encrypt_file_bytes(b"Plaintext", "Key");
    assert_eq!(data, vec![0xBB, 0xF3, 0x16, 0xE8, 0xD9, 0x40, 0xAF, 0x0A, 0xD3]);
    assert_eq!(KeyPair::decrypt_file_bytes(&data, "Key"), b"Plaintext".to_vec());
}

#[test]
fn key_file_round_trip_long_input() {
    let plain: Vec<u8> = (0..3000u32).map(|i| (i % 251) as u8).collect();
    let data = KeyPair::encrypt_file_bytes(&plain, "Default passphrase");
    assert_ne!(data, plain);
    assert_eq!(KeyPair::decrypt_file_bytes(&data, "Default passphrase"), plain);
    assert_ne!(KeyPair::decrypt_file_bytes(&data, "other"), plain);
}

#[test]
fn secp256k1_encrypt_decrypt_round_trip() {
    let km = KeyMaster::new(None);
    let (c, settings) = secp256k1_encrypt(km.public_key(), "who is there");
    assert!(c.chars().all(|ch| ch.is_ascii_hexdigit() && !ch.is_ascii_uppercase()));
    let (plain, settings2) = secp256k1_decrypt(km.secret_key(), &c);
    assert_eq!(settings2, settings);
    assert_eq!(plain, Some("who is there".to_string()));
}

#[test]
fn ecies_default_settings_are_uncompressed() {
    let km = KeyMaster::new(None);
    let (_, settings) = secp256k1_encrypt(km.public_key(), "m");
    assert_eq!(settings, EciesSettings { ephemeral_key_compressed: false, hkdf_key_compressed: false });
}

#[test]
fn secp256k1_decrypt_refuses_garbage() {
    let km = KeyMaster::new(None);
    assert_eq!(secp256k1_decrypt(km.secret_key(), "abcd").0, None);
    assert_eq!(secp256k1_decrypt("zz", "abcd").0, None);
    let other = KeyMaster::new(None);
    let (c, _) = secp256k1_encrypt(other.public_key(), "secret");
    assert_eq!(secp256k1_decrypt(km.secret_key(), &c).0, None);
}

#[test]
fn try_secp256k1_encrypt_takes_hexadecimal_keys() {
    assert!(try_secp256k1_encrypt(PK_ONE, "m").is_some());
    let (c, _) = try_secp256k1_encrypt(PK_ONE_UNCOMPRESSED, "m").unwrap();
    assert_eq!(secp256k1_decrypt(SK_ONE, &c).0, Some("m".to_string()));
    let (upper, _) = try_secp256k1_encrypt(&PK_ONE.to_uppercase(), "m").unwrap();
    assert_eq!(secp256k1_decrypt(SK_ONE, &upper).0, Some("m".to_string()));
    let hybrid = format!("06{}", &PK_ONE_UNCOMPRESSED[2..]);
    assert!(try_secp256k1_encrypt(&hybrid, "m").is_none());
    assert!(try_secp256k1_encrypt("nope", "m").is_none());
    assert!(try_secp256k1_encrypt("abcd", "m").is_none());
}

#[test]
fn generated_certificate_verifies_with_ca_key() {
    let ca = KeyMaster::new(Some("ca"));
    let ca_pk = ca.public_key().clone();
    let (cert, cert_keys) = Cert::generate(ca, "issuer-1", "client pass", "2024-01-01 00:00:00".to_string());
    assert_eq!(cert.public_key, *cert_keys.public_key());
    assert_eq!(cert.ca_public_key, ca_pk);
    assert_eq!(cert.issuer, "issuer-1");
    assert_eq!(cert.time, "2024-01-01 00:00:00");
    assert_eq!(cert_keys.passphrase(), "client pass");
    let checker = KeyMaster::new(None);
    assert!(checker.verify_with_public_key(&ca_pk, &cert.public_key, &cert.signature));
    let entry = cert.database_entry("t".to_string());
    assert_eq!(entry.issuer, "issuer-1");
    assert_eq!(entry.public_key, cert.public_key);
    assert_eq!(entry.time, "t");
}

#[test]
fn root_certs_append_copies() {
    let mut rcs = RootCerts::new();
    let rc = RootCert { public_key: "pk".to_string(), time: "now".to_string(), issuer: "me".to_string() };
    rcs.add_rootcert(&rc);
    rcs.add_rootcert(&rc);
    assert_eq!(rcs.certs.len(), 2);
    assert_eq!(rcs.certs[1].issuer, "me");
    assert_eq!(rc.describe(), "public_key:pk\nissuer: me\ntime: now");
    assert_eq!(RootCerts::get_filename(), "poh_rootcert.pohrc");
}

#[test]
fn database_append_keys_by_public_key() {
    let mut db = Database::new();
    db.append(DatabaseEntry { time: "t1".to_string(), issuer: "a".to_string(), public_key: "pk".to_string() });
    db.append(DatabaseEntry { time: "t2".to_string(), issuer: "b".to_string(), public_key: "pk".to_string() });
    assert_eq!(db.entries.len(), 1);
    let e = db.entries.get(&"pk".to_string()).unwrap();
    assert_eq!(e.issuer, "b");
    assert_eq!(e.describe(), "[issed by b at t2]");
    assert_eq!(Database::get_std_db(), "databases/db.pohd");
}

#[test]
fn file_names_and_messages() {
    assert_eq!(file_in("out", Cert::file_name()), "out/cert.pohcert");
    assert_eq!(file_in("out", Cert::keys_file_name()), "out/keys.poh");
    assert_eq!(file_in("d", DatabaseEntry::file_name()), "d/entry.pohdbe");
    assert_eq!(file_in("d", Database::file_name()), "d/db.pohd");
    assert_eq!(export_message("k.poh"), "Keys exported to file: k.poh");
}

#[test]
fn export_then_import_keeps_keys() {
    let km = KeyMaster::new(Some("pw"));
    let kp = km.key_pair();
    let back = KeyMaster::try_import_key_pair(&kp, km.passphrase()).unwrap();
    assert_eq!(back.secret_key(), km.secret_key());
    assert_eq!(back.public_key(), km.public_key());
    assert_eq!(back.passphrase(), "pw");
    let sig = back.sign("m".to_string());
    assert!(km.verify("m".to_string(), sig));
}

#[test]
fn known_key_signs_and_verifies() {
    let mut km = KeyMaster::new(None);
    km.holding_these(SK_ONE, PK_ONE);
    let sig = km.sign("abc".to_string());
    let checker = KeyMaster::new(None);
    assert!(checker.verify_with_public_key(PK_ONE, "abc", &sig));
    assert!(checker.verify_with_public_key(PK_ONE_UNCOMPRESSED, "abc", &sig));
    assert!(!checker.verify_with_public_key(PK_ONE, "abd", &sig));
}

#[test]
fn client_directory_replaces_spaces_and_drops_newlines() {
    assert_eq!(poh::keys::client_directory("John Q Doe\n"), "John_Q_Doe");
    assert_eq!(poh::keys::client_directory("a\nb c"), "ab_c");
    assert_eq!(poh::keys::client_directory(""), "");
    assert_eq!(poh::keys::client_directory("ünï cödé"), "ünï_cödé");
}

#[test]
fn secret_key_text_is_range_checked_and_lower_cased() {
    let mut km = KeyMaster::new(None);
    let zero = "0".repeat(64);
    assert!(!km.holding_these_checked(&zero, PK_ONE));
    let order = "FFFFFFFFFFFFFFFFFFFFFFFFFFFFFFFEBAAEDCE6AF48A03BBFD25E8CD0364141";
    assert!(!km.holding_these_checked(order, PK_ONE));
    let below_order = "FFFFFFFFFFFFFFFFFFFFFFFFFFFFFFFEBAAEDCE6AF48A03BBFD25E8CD0364140";
    assert!(km.holding_these_checked(below_order, PK_ONE));
    assert_eq!(km.secret_key(), &below_order.to_lowercase());
    assert!(!km.holding_these_checked(&SK_ONE[2..], PK_ONE));
}
