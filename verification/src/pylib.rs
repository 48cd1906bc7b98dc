//! The key and certificate types of the Python binding, which number root
//! certificates by era instead of recording issuer and time.

use vstd::prelude::*;
use vstd::string::StringExecFns;
use crate::crypto::{ecdsa_signature, ecdsa_verifies, is_public_key_text, public_key_of, signature_text_valid};
use crate::keys::{key_texts_shaped, KeyMaster};

verus! {

broadcast use vstd::string::group_string_axioms;

/// A client certificate: a public key and the authority's signature of it.
pub struct Cert {
    pub public_key: String,
    pub signature: String,
}

/// A trusted authority's public key, with the era it belongs to.
pub struct RootCert {
    pub public_key: String,
    pub era: u32,
}

/// The trusted authorities.
pub struct RootCerts {
    pub certs: Vec<RootCert>,
}

impl RootCerts {
    /// No root certificates.
    pub fn new() -> (r: RootCerts)
        ensures
            r.certs@.len() == 0,
    {
        RootCerts { certs: Vec::new() }
    }

    /// Appends the public key `pub_key` of era `era`.
    pub fn add_pub_key(&mut self, pub_key: &str, era: u32)
        ensures
            final(self).certs@.len() == old(self).certs@.len() + 1,
            forall|i: int| 0 <= i < old(self).certs@.len() ==> #[trigger] final(self).certs@[i] == old(self).certs@[i],
            final(self).certs@.last().public_key@ == pub_key@,
            final(self).certs@.last().era == era,
    {
        let rc = RootCert { public_key: pub_key.to_string(), era };
        self.certs.push(rc);
    }

    /// The name of the root certificate file.
    pub fn get_filename() -> (s: String)
        ensures
            s@ == "poh_rootcert.pohrc"@,
    {
        "poh_rootcert.pohrc".to_string()
    }
}

impl Cert {
    /// A certificate for a fresh key pair protected by `passphrase`: the
    /// authority `keys` signs the new public key. Returns the certificate
    /// and the new key pair.
    pub fn new(keys: KeyMaster, passphrase: &str) -> (r: (Cert, KeyMaster))
        ensures
            r.1.keys_match(),
            r.1.passphrase_view() == passphrase@,
            r.0.public_key@ == r.1.public_view(),
            is_public_key_text(r.0.public_key@),
            key_texts_shaped(r.1.secret_view(), r.1.public_view()),
            r.0.signature@ == ecdsa_signature(r.1.public_view(), keys.secret_view()),
            signature_text_valid(r.0.signature@),
            ecdsa_verifies(r.0.public_key@, r.0.signature@, public_key_of(keys.secret_view())),
            keys.keys_match() ==> ecdsa_verifies(r.0.public_key@, r.0.signature@, keys.public_view()),
    {
        let cert_keys = KeyMaster::new(Some(passphrase));
        let signature = keys.sign(cert_keys.public_key().clone());
        (Cert { public_key: cert_keys.public_key().clone(), signature }, cert_keys)
    }
}

/// The message a key import answers with.
pub fn import_message(file: &str) -> (m: String)
    ensures
        m@ == "Keys imported from file: "@ + file@,
{
    let mut m = "Keys imported from file: ".to_string();
    m.append(file);
    m
}

} // verus!
