//! Keys, certificates, root certificates and the database of issued
//! certificates, and the operations the certificate authority performs on
//! them.

use vstd::prelude::*;
use vstd::string::{StrSliceExecFns, StringExecFns, StringSliceAdditionalSpecFns};
use vstd::utf8::{encode_utf8, decode_utf8, valid_utf8};
use crate::crypto::{
    check_signature_text, current_ecies_settings, derive_public_key, ecies_readable_key, EciesSettings, ecdsa_signature, ecdsa_verifies, ecies_decrypt,
    ecies_decrypt_bytes, ecies_encrypt, is_alphanumeric, is_public_key_text, is_secret_key_text,
    parse_public_key, parse_secret_key, public_key_of, public_key_text, random_alphanumeric,
    random_secret_key, rc4, rc4_apply, secret_key_text, sha256, sha256_digest, sign_message,
    signature_text_valid, utf8_to_string, verify_message,
};
use crate::hex::{push_char, hex_decode, hex_decoded, hex_encode, hex_lower, is_lower_hex, lemma_hex_round_trip};
use crate::table::KeyedTable;

verus! {

broadcast use {
    vstd::string::group_string_axioms,
    vstd::utf8::encode_utf8_valid_utf8,
    vstd::utf8::encode_utf8_decode_utf8,
};

/// The passphrase a key master gets when none is given.
pub open spec fn default_passphrase() -> Seq<char> {
    "Default passphrase"@
}

/// A secp256k1 key pair held as text, with the passphrase that protects it
/// on disk.
pub struct KeyMaster {
    pub(crate) public_key: String,
    pub(crate) secret_key: String,
    pub(crate) passphrase: String,
}

/// A key pair as it is stored in a key file.
pub struct KeyPair {
    pub public_key: String,
    pub secret_key: String,
}

/// A client certificate: the client's public key signed by a certificate
/// authority.
pub struct Cert {
    pub public_key: String,
    pub signature: String,
    pub issuer: String,
    pub time: String,
    pub ca_public_key: String,
}

/// A trusted certificate authority's public key.
pub struct RootCert {
    pub public_key: String,
    pub time: String,
    pub issuer: String,
}

/// The trusted certificate authorities.
pub struct RootCerts {
    pub certs: Vec<RootCert>,
}

/// A record of an issued certificate.
pub struct DatabaseEntry {
    pub time: String,
    pub issuer: String,
    pub public_key: String,
}

/// The records of issued certificates, keyed by string.
pub struct Database {
    pub entries: KeyedTable<DatabaseEntry>,
}

/// A secret key's text is 64 and a public key's text 66 lower-case
/// hexadecimal digits, as the `secp256k1` crate writes them.
pub open spec fn key_texts_shaped(secret: Seq<char>, public: Seq<char>) -> bool {
    &&& secret.len() == 64
    &&& is_lower_hex(secret)
    &&& public.len() == 66
    &&& is_lower_hex(public)
}

impl KeyMaster {
    /// Both keys are held as the texts the `secp256k1` crate writes.
    #[verifier::type_invariant]
    spec fn keys_well_formed(&self) -> bool {
        &&& is_secret_key_text(self.secret_key@)
        &&& is_public_key_text(self.public_key@)
        &&& key_texts_shaped(self.secret_key@, self.public_key@)
    }

    /// The public key's text.
    pub closed spec fn public_view(&self) -> Seq<char> {
        self.public_key@
    }

    /// The secret key's text.
    pub closed spec fn secret_view(&self) -> Seq<char> {
        self.secret_key@
    }

    /// The passphrase.
    pub closed spec fn passphrase_view(&self) -> Seq<char> {
        self.passphrase@
    }

    /// The public key is the one derived from the secret key.
    pub open spec fn keys_match(&self) -> bool {
        self.public_view() == public_key_of(self.secret_view())
    }

    /// The public key's text.
    pub fn public_key(&self) -> (s: &String)
        ensures
            s@ == self.public_view(),
            is_public_key_text(s@),
            s@.len() == 66,
            is_lower_hex(s@),
    {
        proof {
            use_type_invariant(self);
        }
        &self.public_key
    }

    /// The secret key's text.
    pub fn secret_key(&self) -> (s: &String)
        ensures
            s@ == self.secret_view(),
            is_secret_key_text(s@),
            s@.len() == 64,
            is_lower_hex(s@),
    {
        proof {
            use_type_invariant(self);
        }
        &self.secret_key
    }

    /// The passphrase.
    pub fn passphrase(&self) -> (s: &String)
        ensures
            s@ == self.passphrase_view(),
    {
        &self.passphrase
    }

    /// Replaces the passphrase.
    pub fn set_passphrase(&mut self, passphrase: &str)
        ensures
            final(self).passphrase_view() == passphrase@,
            final(self).public_view() == old(self).public_view(),
            final(self).secret_view() == old(self).secret_view(),
    {
        proof {
            use_type_invariant(&*self);
        }
        self.passphrase = passphrase.to_string();
    }

    /// A fresh random key pair, protected by `passphrase`, or by
    /// "Default passphrase" when none is given.
    pub fn new(passphrase: Option<&str>) -> (km: Self)
        ensures
            km.keys_match(),
            is_secret_key_text(km.secret_view()),
            is_public_key_text(km.public_view()),
            key_texts_shaped(km.secret_view(), km.public_view()),
            km.passphrase_view() == match passphrase {
                Some(p) => p@,
                None => default_passphrase(),
            },
            passphrase is None ==> km.passphrase_view() == "Default passphrase"@,
    {
        let secret_key = random_secret_key();
        let public_key = derive_public_key(secret_key.as_str());
        let passphrase = match passphrase {
            Some(p) => p.to_string(),
            None => "Default passphrase".to_string(),
        };
        KeyMaster { secret_key, public_key, passphrase }
    }

    /// Takes over the key pair that `secret_key` and `public_key` spell,
    /// held as the texts the `secp256k1` crate writes of them. The two keys
    /// are not checked against each other.
    pub fn holding_these(&mut self, secret_key: &str, public_key: &str)
        requires
            secret_key_text(secret_key@) is Some,
            public_key_text(public_key@) is Some,
        ensures
            final(self).secret_view() == secret_key_text(secret_key@).unwrap(),
            final(self).public_view() == public_key_text(public_key@).unwrap(),
            final(self).passphrase_view() == old(self).passphrase_view(),
    {
        proof {
            use_type_invariant(&*self);
        }
        let sk = parse_secret_key(secret_key).unwrap();
        let pk = parse_public_key(public_key).unwrap();
        self.secret_key = sk;
        self.public_key = pk;
    }

    /// Takes over the key pair when both texts are keys the `secp256k1`
    /// crate accepts, as `holding_these` does; otherwise changes nothing.
    /// Answers whether it took them over.
    pub fn holding_these_checked(&mut self, secret_key: &str, public_key: &str) -> (ok: bool)
        ensures
            ok == (secret_key_text(secret_key@) is Some && public_key_text(public_key@) is Some),
            ok ==> final(self).secret_view() == secret_key_text(secret_key@).unwrap()
                && final(self).public_view() == public_key_text(public_key@).unwrap(),
            !ok ==> final(self).secret_view() == old(self).secret_view()
                && final(self).public_view() == old(self).public_view(),
            final(self).passphrase_view() == old(self).passphrase_view(),
    {
        let sk = parse_secret_key(secret_key);
        let pk = parse_public_key(public_key);
        if sk.is_some() && pk.is_some() {
            self.holding_these(secret_key, public_key);
            true
        } else {
            false
        }
    }

    /// The signature of `message` with the secret key.
    pub fn sign(&self, message: String) -> (sig: String)
        ensures
            sig@ == ecdsa_signature(message@, self.secret_view()),
            signature_text_valid(sig@),
            ecdsa_verifies(message@, sig@, public_key_of(self.secret_view())),
            self.keys_match() ==> ecdsa_verifies(message@, sig@, self.public_view()),
    {
        proof {
            use_type_invariant(self);
        }
        sign_message(message.as_str(), self.secret_key.as_str())
    }

    /// Whether `signature` is a valid signature of `message` for the public
    /// key.
    pub fn verify(&self, message: String, signature: String) -> (b: bool)
        requires
            signature_text_valid(signature@),
        ensures
            b == ecdsa_verifies(message@, signature@, self.public_view()),
    {
        proof {
            use_type_invariant(self);
        }
        verify_message(message.as_str(), signature.as_str(), self.public_key.as_str())
    }

    /// As `verify`, when `signature` is signature text the `secp256k1`
    /// crate accepts; `None` otherwise.
    pub fn try_verify(&self, message: String, signature: String) -> (r: Option<bool>)
        ensures
            r == (if signature_text_valid(signature@) {
                Some(ecdsa_verifies(message@, signature@, self.public_view()))
            } else {
                None
            }),
    {
        if check_signature_text(signature.as_str()) {
            Some(self.verify(message, signature))
        } else {
            None
        }
    }

    /// Whether `signature` is a valid signature of `message` for the public
    /// key `public_key`.
    pub fn verify_with_public_key(&self, public_key: &str, message: &str, signature: &str) -> (b: bool)
        requires
            signature_text_valid(signature@),
            public_key_text(public_key@) is Some,
        ensures
            b == ecdsa_verifies(message@, signature@, public_key@),
    {
        verify_message(message, signature, public_key)
    }

    /// As `verify_with_public_key`, when both texts are ones the
    /// `secp256k1` crate accepts; `None` otherwise.
    pub fn try_verify_with_public_key(&self, public_key: &str, message: &str, signature: &str) -> (r: Option<
        bool,
    >)
        ensures
            r == (if signature_text_valid(signature@) && public_key_text(public_key@) is Some {
                Some(ecdsa_verifies(message@, signature@, public_key@))
            } else {
                None
            }),
    {
        if check_signature_text(signature) && parse_public_key(public_key).is_some() {
            Some(self.verify_with_public_key(public_key, message, signature))
        } else {
            None
        }
    }

    /// A random 100-character alphanumeric message and its signature.
    pub fn new_certificate(&self) -> (r: (String, String))
        ensures
            r.0@.len() == 100,
            forall|i: int| 0 <= i < 100 ==> is_alphanumeric(#[trigger] r.0@[i]),
            r.1@ == ecdsa_signature(r.0@, self.secret_view()),
    {
        let message = random_alphanumeric(100);
        let sig = self.sign(message.clone());
        (message, sig)
    }

    /// The key pair, as it is stored in a key file.
    pub fn key_pair(&self) -> (kp: KeyPair)
        ensures
            kp.secret_key@ == self.secret_view(),
            kp.public_key@ == self.public_view(),
            is_secret_key_text(kp.secret_key@),
            is_public_key_text(kp.public_key@),
    {
        proof {
            use_type_invariant(self);
        }
        KeyPair { secret_key: self.secret_key.clone(), public_key: self.public_key.clone() }
    }

    /// A key master holding the key pair read from a key file, protected by
    /// `passphrase`.
    pub fn import_key_pair(key_pair: &KeyPair, passphrase: &str) -> (km: KeyMaster)
        requires
            secret_key_text(key_pair.secret_key@) is Some,
            public_key_text(key_pair.public_key@) is Some,
        ensures
            km.secret_view() == secret_key_text(key_pair.secret_key@).unwrap(),
            km.public_view() == public_key_text(key_pair.public_key@).unwrap(),
            km.passphrase_view() == passphrase@,
    {
        let sk = parse_secret_key(key_pair.secret_key.as_str()).unwrap();
        let pk = parse_public_key(key_pair.public_key.as_str()).unwrap();
        KeyMaster { secret_key: sk, public_key: pk, passphrase: passphrase.to_string() }
    }

    /// As `import_key_pair` when the key file holds keys the `secp256k1`
    /// crate accepts; `None` otherwise.
    pub fn try_import_key_pair(key_pair: &KeyPair, passphrase: &str) -> (r: Option<KeyMaster>)
        ensures
            r is Some == (secret_key_text(key_pair.secret_key@) is Some && public_key_text(
                key_pair.public_key@,
            ) is Some),
            r matches Some(km) ==> km.secret_view() == secret_key_text(key_pair.secret_key@).unwrap()
                && km.public_view() == public_key_text(key_pair.public_key@).unwrap()
                && km.passphrase_view() == passphrase@,
    {
        if parse_secret_key(key_pair.secret_key.as_str()).is_some() && parse_public_key(
            key_pair.public_key.as_str(),
        ).is_some() {
            Some(KeyMaster::import_key_pair(key_pair, passphrase))
        } else {
            None
        }
    }
}


/// Importing a key pair whose texts are as the `secp256k1` crate writes
/// them (such as one a key master exported) keeps both texts unchanged.
pub proof fn law_import_keeps_exported_keys(secret: Seq<char>, public: Seq<char>)
    requires
        is_secret_key_text(secret),
        is_public_key_text(public),
    ensures
        secret_key_text(secret) is Some,
        public_key_text(public) is Some,
        secret_key_text(secret).unwrap() == secret,
        public_key_text(public).unwrap() == public,
{
}

/// The RC4 key a passphrase gives: its UTF-8 bytes.
pub open spec fn passphrase_key(passphrase: Seq<char>) -> Seq<u8> {
    encode_utf8(passphrase)
}

/// The RC4 key of a key file is the whole of the passphrase's UTF-8
/// encoding, byte for byte, however long the passphrase is.
pub proof fn law_key_file_key_is_whole_passphrase(passphrase: &str)
    ensures
        passphrase_key(passphrase@) == passphrase.spec_bytes(),
        passphrase_key(passphrase@).len() == passphrase.spec_bytes().len(),
        forall|i: int| 0 <= i < passphrase.spec_bytes().len() ==> passphrase_key(passphrase@)[i] == passphrase.spec_bytes()[i],
{
}

/// What the bytes of a key file read as under `passphrase`.
pub open spec fn key_file_contents(data: Seq<u8>, passphrase: Seq<char>) -> Seq<u8> {
    rc4(passphrase_key(passphrase), data)
}

/// A passphrase can key RC4: it has 1 to 256 bytes.
pub open spec fn passphrase_usable(passphrase: &str) -> bool {
    1 <= passphrase.spec_bytes().len() <= 256
}

impl KeyPair {
    /// The bytes of a key file holding `serialized`, the key pair as the
    /// file format serializes it: RC4 keyed with the passphrase's bytes.
    /// Reading them back under the same passphrase gives `serialized`.
    pub fn encrypt_file_bytes(serialized: &[u8], passphrase: &str) -> (data: Vec<u8>)
        requires
            passphrase_usable(passphrase),
        ensures
            data@ == rc4(passphrase_key(passphrase@), serialized@),
            data@ == rc4(passphrase.spec_bytes(), serialized@),
            data@.len() == serialized@.len(),
            key_file_contents(data@, passphrase@) == serialized@,
    {
        rc4_apply(passphrase.as_bytes(), serialized)
    }

    /// What the bytes `data` of a key file read as under `passphrase`.
    pub fn decrypt_file_bytes(data: &[u8], passphrase: &str) -> (serialized: Vec<u8>)
        requires
            passphrase_usable(passphrase),
        ensures
            serialized@ == key_file_contents(data@, passphrase@),
            serialized@ == rc4(passphrase.spec_bytes(), data@),
            serialized@.len() == data@.len(),
    {
        rc4_apply(passphrase.as_bytes(), data)
    }
}

/// The message a key export answers with.
pub fn export_message(file: &str) -> (m: String)
    ensures
        m@ == "Keys exported to file: "@ + file@,
{
    let mut m = "Keys exported to file: ".to_string();
    m.append(file);
    m
}

/// The directory name for a new client called `name`: spaces become
/// underscores and line breaks are dropped.
pub open spec fn client_dir_name(name: Seq<char>) -> Seq<char>
    decreases name.len(),
{
    if name.len() == 0 {
        Seq::empty()
    } else {
        let c = name.last();
        client_dir_name(name.drop_last()) + if c == '\n' {
            Seq::<char>::empty()
        } else if c == ' ' {
            seq!['_']
        } else {
            seq![c]
        }
    }
}

/// Not a line break.
pub open spec fn not_line_break(c: char) -> bool {
    c != '\n'
}

/// A space becomes an underscore; every other character stays.
pub open spec fn space_to_underscore(c: char) -> char {
    if c == ' ' {
        '_'
    } else {
        c
    }
}

/// The directory name is the client's name with its line breaks left out
/// and each space turned into an underscore: every other character is kept,
/// in order.
pub proof fn law_client_dir_name_keeps_other_characters(name: Seq<char>)
    ensures
        client_dir_name(name) == name.filter(|c: char| not_line_break(c)).map_values(
            |c: char| space_to_underscore(c),
        ),
    decreases name.len(),
{
    let f = |c: char| not_line_break(c);
    let g = |c: char| space_to_underscore(c);
    if name.len() == 0 {
        assert(name.filter(f) =~= Seq::<char>::empty());
        assert(client_dir_name(name) =~= name.filter(f).map_values(g));
    } else {
        let init = name.drop_last();
        let c = name.last();
        law_client_dir_name_keeps_other_characters(init);
        assert(name == init.push(c));
        init.lemma_filter_push(c, f);
        if c == '\n' {
            assert(name.filter(f) == init.filter(f));
            assert(client_dir_name(name) =~= client_dir_name(init));
        } else {
            assert(name.filter(f) == init.filter(f).push(c));
            assert(init.filter(f).push(c).map_values(g) =~= init.filter(f).map_values(g).push(g(c)));
            if c == ' ' {
                assert(client_dir_name(name) =~= client_dir_name(init) + seq!['_']);
            } else {
                assert(client_dir_name(name) =~= client_dir_name(init) + seq![c]);
            }
        }
    }
}

/// The directory a new client's certificate and keys go to, named after
/// the client: spaces become underscores and line breaks are dropped.
pub fn client_directory(name: &str) -> (d: String)
    ensures
        d@ == client_dir_name(name@),
        d@ == name@.filter(|c: char| not_line_break(c)).map_values(|c: char| space_to_underscore(c)),
{
    proof {
        law_client_dir_name_keeps_other_characters(name@);
    }
    let n = name.unicode_len();
    let mut d = String::new();
    let mut i: usize = 0;
    while i < n
        invariant
            n == name@.len(),
            i <= n,
            d@ == client_dir_name(name@.take(i as int)),
        decreases n - i,
    {
        let c = name.get_char(i);
        proof {
            assert(name@.take(i + 1).drop_last() =~= name@.take(i as int));
            assert(name@.take(i + 1).last() == c);
        }
        if c == '\n' {
            proof {
                assert(d@ + Seq::<char>::empty() =~= d@);
            }
        } else if c == ' ' {
            push_char(&mut d, '_');
        } else {
            push_char(&mut d, c);
        }
        i = i + 1;
    }
    proof {
        assert(name@.take(n as int) =~= name@);
    }
    d
}

/// `name` in directory `dir`.
pub fn file_in(dir: &str, name: &str) -> (p: String)
    ensures
        p@ == dir@ + "/"@ + name@,
{
    let mut p = dir.to_string();
    p.append("/");
    p.append(name);
    p
}

impl Cert {
    /// A certificate for a fresh key pair protected by `passphrase`, issued
    /// by `issuer` at `time`: the authority `keys` signs the new public key.
    /// Returns the certificate and the new key pair.
    pub fn generate(keys: KeyMaster, issuer: &str, passphrase: &str, time: String) -> (r: (Cert, KeyMaster))
        ensures
            r.1.keys_match(),
            r.1.passphrase_view() == passphrase@,
            r.0.public_key@ == r.1.public_view(),
            is_public_key_text(r.0.public_key@),
            key_texts_shaped(r.1.secret_view(), r.1.public_view()),
            r.0.signature@ == ecdsa_signature(r.1.public_view(), keys.secret_view()),
            signature_text_valid(r.0.signature@),
            ecdsa_verifies(r.0.public_key@, r.0.signature@, public_key_of(keys.secret_view())),
            keys.keys_match() ==> ecdsa_verifies(r.0.public_key@, r.0.signature@, r.0.ca_public_key@),
            r.0.ca_public_key@ == keys.public_view(),
            r.0.issuer@ == issuer@,
            r.0.time@ == time@,
    {
        let cert_keys = KeyMaster::new(Some(passphrase));
        let signature = keys.sign(cert_keys.public_key().clone());
        let cert = Cert {
            public_key: cert_keys.public_key().clone(),
            signature,
            ca_public_key: keys.public_key().clone(),
            time,
            issuer: issuer.to_string(),
        };
        (cert, cert_keys)
    }

    /// The database record of this certificate, made at `time`.
    pub fn database_entry(&self, time: String) -> (e: DatabaseEntry)
        ensures
            e.time@ == time@,
            e.issuer@ == self.issuer@,
            e.public_key@ == self.public_key@,
    {
        DatabaseEntry { time, issuer: self.issuer.clone(), public_key: self.public_key.clone() }
    }

    /// The name of a certificate file.
    pub fn file_name() -> (s: &'static str)
        ensures
            s@ == "cert.pohcert"@,
    {
        "cert.pohcert"
    }

    /// The name of the key file stored beside a certificate.
    pub fn keys_file_name() -> (s: &'static str)
        ensures
            s@ == "keys.poh"@,
    {
        "keys.poh"
    }
}

impl RootCert {
    /// A copy of this root certificate.
    pub fn copy(&self) -> (r: RootCert)
        ensures
            r.public_key@ == self.public_key@,
            r.time@ == self.time@,
            r.issuer@ == self.issuer@,
    {
        RootCert { public_key: self.public_key.clone(), time: self.time.clone(), issuer: self.issuer.clone() }
    }

    /// How the root certificate is shown: its public key, issuer and time on
    /// three lines.
    pub fn describe(&self) -> (s: String)
        ensures
            s@ == "public_key:"@ + self.public_key@ + "\nissuer: "@ + self.issuer@ + "\ntime: "@
                + self.time@,
    {
        let mut s = "public_key:".to_string();
        s.append(self.public_key.as_str());
        s.append("\nissuer: ");
        s.append(self.issuer.as_str());
        s.append("\ntime: ");
        s.append(self.time.as_str());
        s
    }
}

impl RootCerts {
    /// No root certificates.
    pub fn new() -> (r: RootCerts)
        ensures
            r.certs@.len() == 0,
    {
        RootCerts { certs: Vec::new() }
    }

    /// Appends a copy of `root_cert`.
    pub fn add_rootcert(&mut self, root_cert: &RootCert)
        ensures
            final(self).certs@.len() == old(self).certs@.len() + 1,
            forall|i: int| 0 <= i < old(self).certs@.len() ==> #[trigger] final(self).certs@[i] == old(self).certs@[i],
            final(self).certs@.last().public_key@ == root_cert.public_key@,
            final(self).certs@.last().time@ == root_cert.time@,
            final(self).certs@.last().issuer@ == root_cert.issuer@,
    {
        self.certs.push(root_cert.copy());
    }

    /// The name of the root certificate file.
    pub fn get_filename() -> (s: String)
        ensures
            s@ == "poh_rootcert.pohrc"@,
    {
        "poh_rootcert.pohrc".to_string()
    }
}

impl DatabaseEntry {
    /// How the record is shown: who issued it and when.
    pub fn describe(&self) -> (s: String)
        ensures
            s@ == "[issed by "@ + self.issuer@ + " at "@ + self.time@ + "]"@,
    {
        let mut s = "[issed by ".to_string();
        s.append(self.issuer.as_str());
        s.append(" at ");
        s.append(self.time.as_str());
        s.append("]");
        s
    }

    /// The name of a database entry file.
    pub fn file_name() -> (s: &'static str)
        ensures
            s@ == "entry.pohdbe"@,
    {
        "entry.pohdbe"
    }
}

impl Database {
    /// An empty database.
    pub fn new() -> (db: Database)
        ensures
            db.entries@ == Map::<Seq<char>, DatabaseEntry>::empty(),
    {
        Database { entries: KeyedTable::new() }
    }

    /// Where the server reads its database.
    pub fn get_std_db() -> (s: &'static str)
        ensures
            s@ == "databases/db.pohd"@,
    {
        "databases/db.pohd"
    }

    /// The name of a database file.
    pub fn file_name() -> (s: &'static str)
        ensures
            s@ == "db.pohd"@,
    {
        "db.pohd"
    }

    /// Adds `entry` under its public key, replacing any entry stored there.
    pub fn append(&mut self, entry: DatabaseEntry)
        ensures
            final(self).entries@ == old(self).entries@.insert(entry.public_key@, entry),
    {
        let key = entry.public_key.clone();
        self.entries.insert(key, entry);
    }
}

/// The SHA-256 digest of `in_str`'s UTF-8 bytes, as lower-case hexadecimal.
pub fn hash_string(in_str: &str) -> (h: String)
    ensures
        h@ == hex_lower(sha256(encode_utf8(in_str@))),
        h@.len() == 64,
{
    let digest = sha256_digest(in_str.as_bytes());
    hex_encode(digest.as_slice())
}

/// What ECIES decryption gives for secret key text `secret` and hexadecimal
/// ciphertext `ciphertext`, read as UTF-8 text, under the `ecies`
/// configuration `settings`; `None` where a step fails.
pub open spec fn secp256k1_decrypted(settings: EciesSettings, secret: Seq<char>, ciphertext: Seq<char>) -> Option<
    Seq<char>,
> {
    match (hex_decoded(secret), hex_decoded(ciphertext)) {
        (Some(k), Some(c)) => match ecies_decrypt(
            settings.ephemeral_key_compressed,
            settings.hkdf_key_compressed,
            k,
            c,
        ) {
            Some(p) => if valid_utf8(p) {
                Some(decode_utf8(p))
            } else {
                None
            },
            None => None,
        },
        _ => None,
    }
}

/// Decryption is plain ECIES on the bytes the two hexadecimal texts spell:
/// when `ecies` decrypts the ciphertext bytes with the key bytes to `p`,
/// the answer is the UTF-8 text `p` encodes, or `None` when `p` is no
/// UTF-8; when either text is no hexadecimal or `ecies` fails, `None`.
pub proof fn law_decryption_is_plain_ecies(
    settings: EciesSettings,
    secret: Seq<char>,
    ciphertext: Seq<char>,
)
    ensures
        (hex_decoded(secret) is None || hex_decoded(ciphertext) is None) ==> secp256k1_decrypted(
            settings,
            secret,
            ciphertext,
        ) is None,
        hex_decoded(secret) matches Some(k) ==> hex_decoded(ciphertext) matches Some(c) ==> match ecies_decrypt(
            settings.ephemeral_key_compressed,
            settings.hkdf_key_compressed,
            k,
            c,
        ) {
            Some(p) => {
                &&& valid_utf8(p) ==> secp256k1_decrypted(settings, secret, ciphertext) == Some(decode_utf8(p))
                &&& !valid_utf8(p) ==> secp256k1_decrypted(settings, secret, ciphertext) is None
            },
            None => secp256k1_decrypted(settings, secret, ciphertext) is None,
        },
{
}

/// The text `pk` spells a public key both `secp256k1` and `ecies` read:
/// hexadecimal of either case, in the compressed or the uncompressed
/// encoding.
pub open spec fn encryptable_key(pk: Seq<char>) -> bool {
    hex_decoded(pk) is Some && ecies_readable_key(pk, hex_decoded(pk).unwrap())
}

/// Under the `ecies` configuration `settings`, every secret key whose
/// public key `pk` spells decrypts the hexadecimal ciphertext `c` to `msg`.
pub open spec fn opens_to(settings: EciesSettings, pk: Seq<char>, c: Seq<char>, msg: Seq<char>) -> bool {
    forall|t: Seq<char>|
        #![trigger public_key_of(t)]
        is_secret_key_text(t) && public_key_text(pk) == Some(public_key_of(t)) ==> secp256k1_decrypted(
            settings,
            t,
            c,
        ) == Some(msg)
}

/// `c` is lower-case hexadecimal ciphertext that, under the `ecies`
/// configuration `settings`, every secret key of `pk` decrypts to `msg`.
pub open spec fn sealed_to(settings: EciesSettings, pk: Seq<char>, c: Seq<char>, msg: Seq<char>) -> bool {
    &&& exists|b: Seq<u8>| c == hex_lower(b)
    &&& opens_to(settings, pk, c, msg)
}

/// Decrypting what was encrypted to a public key, with a secret key of that
/// public key and under the `ecies` configuration the encryption ran with,
/// gives the message back.
pub proof fn law_decrypt_undoes_encrypt(
    settings: EciesSettings,
    pk: Seq<char>,
    c: Seq<char>,
    msg: Seq<char>,
    secret: Seq<char>,
)
    requires
        sealed_to(settings, pk, c, msg),
        is_secret_key_text(secret),
        public_key_text(pk) == Some(public_key_of(secret)),
    ensures
        secp256k1_decrypted(settings, secret, c) == Some(msg),
{
}

/// ECIES encryption of `msg`'s UTF-8 bytes to the public key that the
/// hexadecimal text `pk` spells, as lower-case hexadecimal, with the `ecies`
/// configuration it ran under. Every secret key of that public key decrypts
/// it back to `msg` under that configuration.
pub fn secp256k1_encrypt(pk: &str, msg: &str) -> (r: (String, EciesSettings))
    requires
        encryptable_key(pk@),
    ensures
        sealed_to(r.1, pk@, r.0@, msg@),
        hex_decoded(r.0@) is Some && forall|t: Seq<char>|
            #![trigger public_key_of(t)]
            is_secret_key_text(t) && public_key_text(pk@) == Some(public_key_of(t)) ==> hex_decoded(t) is Some
                && ecies_decrypt(
                r.1.ephemeral_key_compressed,
                r.1.hkdf_key_compressed,
                hex_decoded(t).unwrap(),
                hex_decoded(r.0@).unwrap(),
            ) == Some(msg.spec_bytes()),
{
    try_secp256k1_encrypt(pk, msg).unwrap()
}

/// As `secp256k1_encrypt` for any text: `None` where `pk` is no hexadecimal
/// text or `ecies` refuses the key it spells. Keys both crates read
/// (`encryptable_key`) are never refused.
pub fn try_secp256k1_encrypt(pk: &str, msg: &str) -> (r: Option<(String, EciesSettings)>)
    ensures
        hex_decoded(pk@) is None ==> r is None,
        encryptable_key(pk@) ==> r is Some,
        r matches Some((c, settings)) ==> sealed_to(settings, pk@, c@, msg@),
        r matches Some((c, settings)) ==> hex_decoded(c@) is Some && forall|t: Seq<char>|
            #![trigger public_key_of(t)]
            is_secret_key_text(t) && public_key_text(pk@) == Some(public_key_of(t)) ==> hex_decoded(t) is Some
                && ecies_decrypt(
                settings.ephemeral_key_compressed,
                settings.hkdf_key_compressed,
                hex_decoded(t).unwrap(),
                hex_decoded(c@).unwrap(),
            ) == Some(msg.spec_bytes()),
{
    let pk_bytes = match hex_decode(pk) {
        Some(b) => b,
        None => return None,
    };
    let (settings, sealed) = ecies_encrypt(pk_bytes.as_slice(), msg.as_bytes());
    let sealed = match sealed {
        Some(s) => s,
        None => {
            proof {
                if encryptable_key(pk@) {
                    assert(public_key_text(pk@) is Some);
                }
            }
            return None;
        },
    };
    let c = hex_encode(sealed.as_slice());
    proof {
        lemma_hex_round_trip(sealed@);
        assert forall|t: Seq<char>|
            #![trigger public_key_of(t)]
            is_secret_key_text(t) && public_key_text(pk@) == Some(public_key_of(t)) implies secp256k1_decrypted(
                settings,
                t,
                c@,
            ) == Some(msg@) by {
            assert(public_key_text(pk@) == Some(public_key_of(t)));
            assert(hex_decoded(t) is Some);
            assert(ecies_decrypt(
                settings.ephemeral_key_compressed,
                settings.hkdf_key_compressed,
                hex_decoded(t).unwrap(),
                sealed@,
            ) == Some(encode_utf8(msg@)));
        }
        assert(c@ == hex_lower(sealed@));
    }
    Some((c, settings))
}

/// The text an optional string holds.
pub open spec fn text_of(r: Option<String>) -> Option<Seq<char>> {
    match r {
        Some(m) => Some(m@),
        None => None,
    }
}

/// ECIES decryption of hexadecimal ciphertext `msg` with the secret key
/// with hexadecimal text `sk`, read as UTF-8 text, with the `ecies`
/// configuration it ran under; `None` where a step fails. Under the
/// configuration an encryption to `sk`'s public key ran with, that is the
/// message encrypted (`law_decrypt_undoes_encrypt`).
pub fn secp256k1_decrypt(sk: &str, msg: &str) -> (r: (Option<String>, EciesSettings))
    ensures
        text_of(r.0) == secp256k1_decrypted(r.1, sk@, msg@),
        hex_decoded(sk@) is None ==> r.0 is None,
        hex_decoded(msg@) is None ==> r.0 is None,
        hex_decoded(sk@) matches Some(k) ==> hex_decoded(msg@) matches Some(c) ==> match ecies_decrypt(
            r.1.ephemeral_key_compressed,
            r.1.hkdf_key_compressed,
            k,
            c,
        ) {
            Some(p) => if valid_utf8(p) {
                text_of(r.0) == Some(decode_utf8(p))
            } else {
                r.0 is None
            },
            None => r.0 is None,
        },
{
    let sk_bytes = match hex_decode(sk) {
        Some(b) => b,
        None => return (None, current_ecies_settings()),
    };
    let msg_bytes = match hex_decode(msg) {
        Some(b) => b,
        None => return (None, current_ecies_settings()),
    };
    let (settings, plain) = ecies_decrypt_bytes(sk_bytes.as_slice(), msg_bytes.as_slice());
    let r = match plain {
        Some(p) => utf8_to_string(p),
        None => None,
    };
    (r, settings)
}

} // verus!
