//! The calls into outside cryptography crates, and what the library assumes
//! of them.
//!
//! Every item here is trusted: Verus believes its contract without proof.
//! Keys and signatures travel as the text the `secp256k1` crate writes:
//! lower-case hexadecimal of the secret key's 32 bytes, of the compressed
//! public key's 33 bytes, and of the DER-encoded signature.

use vstd::prelude::*;
use crate::hex::{hex_decoded, hex_lower, is_lower_hex};

use rand::Rng;
use secp256k1::bitcoin_hashes::sha256 as bh_sha256;
use secp256k1::{Message, PublicKey, Secp256k1, SecretKey, Signature};
use sha2::Digest;
use std::str::FromStr;
use crypto::symmetriccipher::SynchronousStreamCipher;

verus! {

/// The order of the secp256k1 group: secret keys are the integers from 1
/// to one less than it.
pub open spec fn curve_order() -> int {
    0xFFFFFFFFFFFFFFFFFFFFFFFFFFFFFFFEBAAEDCE6AF48A03BBFD25E8CD0364141int
}

/// The unsigned integer that the bytes `b` spell, most significant first.
pub open spec fn big_endian_value(b: Seq<u8>) -> int
    decreases b.len(),
{
    if b.len() == 0 {
        0
    } else {
        big_endian_value(b.drop_last()) * 256 + b.last()
    }
}

/// The text that `SecretKey::from_str` then `to_string` give for `s`, or
/// `None` when `from_str` refuses `s`: `from_str` takes 64 hexadecimal
/// digits of either case whose value is a secret key (neither zero nor
/// beyond the group order), and `to_string` writes the same 32 bytes in
/// lower case.
pub open spec fn secret_key_text(s: Seq<char>) -> Option<Seq<char>> {
    match hex_decoded(s) {
        Some(b) => if b.len() == 32 && 0 < big_endian_value(b) < curve_order() {
            Some(hex_lower(b))
        } else {
            None
        },
        None => None,
    }
}

/// The text that `PublicKey::from_str` then `to_string` give for `s`, or
/// `None` when `from_str` refuses `s`.
pub uninterp spec fn public_key_text(s: Seq<char>) -> Option<Seq<char>>;

/// The text of the public key that `PublicKey::from_secret_key` derives from
/// the secret key with text `secret`.
pub uninterp spec fn public_key_of(secret: Seq<char>) -> Seq<char>;

/// The text of the signature that `Secp256k1::sign` makes of the SHA-256
/// digest of `message`'s bytes with the secret key with text `secret`.
pub uninterp spec fn ecdsa_signature(message: Seq<char>, secret: Seq<char>) -> Seq<char>;

/// Whether `Signature::from_str` accepts `s`.
pub uninterp spec fn signature_text_valid(s: Seq<char>) -> bool;

/// Whether `Secp256k1::verify` accepts signature text `sig` on the SHA-256
/// digest of `message`'s bytes for the public key with text `public`.
pub uninterp spec fn ecdsa_verifies(message: Seq<char>, sig: Seq<char>, public: Seq<char>) -> bool;

/// The SHA-256 digest of `data`.
pub uninterp spec fn sha256(data: Seq<u8>) -> Seq<u8>;

/// RC4 with key `key` applied to `data`: `data` XOR the key's keystream.
pub uninterp spec fn rc4(key: Seq<u8>, data: Seq<u8>) -> Seq<u8>;

/// What `ecies::decrypt` gives for secret key bytes `secret` and ciphertext
/// `ciphertext`, or `None` when it fails, while `ecies`'s global
/// configuration has `is_ephemeral_key_compressed` equal to
/// `ephemeral_key_compressed` and `is_hkdf_key_compressed` equal to
/// `hkdf_key_compressed`.
pub uninterp spec fn ecies_decrypt(
    ephemeral_key_compressed: bool,
    hkdf_key_compressed: bool,
    secret: Seq<u8>,
    ciphertext: Seq<u8>,
) -> Option<Seq<u8>>;

/// `s` is the text of a secret key as `SecretKey`'s `Display` writes it.
pub open spec fn is_secret_key_text(s: Seq<char>) -> bool {
    secret_key_text(s) == Some(s)
}

/// `s` is the text of a public key as `PublicKey`'s `Display` writes it.
pub open spec fn is_public_key_text(s: Seq<char>) -> bool {
    public_key_text(s) == Some(s)
}

/// A secret key drawn from the operating system's random source
/// (`SecretKey::new` over `OsRng`), as text.
///
/// Claims: the text is one that `SecretKey::from_str` accepts and that
/// `to_string` writes back unchanged: 64 lower-case hexadecimal digits.
/// Which key comes out is left open. `OsRng::new` fails only when the
/// operating system offers no random source; the call then panics.
#[verifier::external_body]
pub fn random_secret_key() -> (s: String)
    ensures
        is_secret_key_text(s@),
        s@.len() == 64,
        is_lower_hex(s@),
{
    let mut rng = secp256k1::rand::rngs::OsRng::new().expect("OsRng");
    SecretKey::new(&mut rng).to_string()
}

/// `SecretKey::from_str`, and the text `to_string` writes of the key.
///
/// Claims: the result is `secret_key_text` of the argument, as stated there; a
/// text that comes out is read back as itself, and is 64 lower-case
/// hexadecimal digits (the 32 bytes of the key).
#[verifier::external_body]
pub fn parse_secret_key(s: &str) -> (r: Option<String>)
    ensures
        match r {
            Some(t) => secret_key_text(s@) == Some(t@) && is_secret_key_text(t@)
                && t@.len() == 64 && hex_decoded(t@) is Some && is_lower_hex(t@),
            None => secret_key_text(s@) is None,
        },
{
    SecretKey::from_str(s).ok().map(|k| k.to_string())
}

/// `PublicKey::from_str`, and the text `to_string` writes of the key.
///
/// Claims: the result is the named `public_key_text` of the argument; a
/// text that comes out is read back as itself, and is 66 lower-case
/// hexadecimal digits (the compressed encoding).
#[verifier::external_body]
pub fn parse_public_key(s: &str) -> (r: Option<String>)
    ensures
        match r {
            Some(t) => public_key_text(s@) == Some(t@) && is_public_key_text(t@)
                && t@.len() == 66 && hex_decoded(t@) is Some && is_lower_hex(t@),
            None => public_key_text(s@) is None,
        },
{
    PublicKey::from_str(s).ok().map(|k| k.to_string())
}

/// `PublicKey::from_secret_key`, in a fresh `Secp256k1::new` context, on the key that `secret` spells, as text.
///
/// Claims: the result is the named `public_key_of` of the secret text, and
/// is a public-key text that reads back as itself: 66 lower-case
/// hexadecimal digits (the compressed encoding).
#[verifier::external_body]
pub fn derive_public_key(secret: &str) -> (p: String)
    requires
        secret_key_text(secret@) is Some,
    ensures
        p@ == public_key_of(secret@),
        is_public_key_text(p@),
        hex_decoded(p@) is Some,
        p@.len() == 66,
        is_lower_hex(p@),
{
    let sk = SecretKey::from_str(secret).unwrap();
    PublicKey::from_secret_key(&Secp256k1::new(), &sk).to_string()
}

/// `Secp256k1::sign`, in a fresh context, on the SHA-256 digest of `message`'s bytes
/// (`Message::from_hashed_data::<sha256::Hash>`) with the key `secret`
/// spells, as text.
///
/// Claims: the result is the named `ecdsa_signature` of message and secret
/// text (signing is deterministic, RFC 6979); `Signature::from_str` accepts
/// it; and `Secp256k1::verify` accepts it for the public key derived from
/// the same secret key.
#[verifier::external_body]
pub fn sign_message(message: &str, secret: &str) -> (sig: String)
    requires
        secret_key_text(secret@) is Some,
    ensures
        sig@ == ecdsa_signature(message@, secret@),
        signature_text_valid(sig@),
        ecdsa_verifies(message@, sig@, public_key_of(secret@)),
{
    let m = Message::from_hashed_data::<bh_sha256::Hash>(message.as_bytes());
    Secp256k1::new().sign(&m, &SecretKey::from_str(secret).unwrap()).to_string()
}

/// Whether `Signature::from_str` accepts `s`.
#[verifier::external_body]
pub fn check_signature_text(s: &str) -> (b: bool)
    ensures
        b == signature_text_valid(s@),
{
    Signature::from_str(s).is_ok()
}

/// `Secp256k1::verify`, in a fresh context, of signature text `sig` on the SHA-256 digest of
/// `message`'s bytes for the public key with text `public`.
///
/// Claims: the result is the named `ecdsa_verifies` of the three texts.
#[verifier::external_body]
pub fn verify_message(message: &str, sig: &str, public: &str) -> (b: bool)
    requires
        signature_text_valid(sig@),
        public_key_text(public@) is Some,
    ensures
        b == ecdsa_verifies(message@, sig@, public@),
{
    let m = Message::from_hashed_data::<bh_sha256::Hash>(message.as_bytes());
    let ctx = Secp256k1::new();
    ctx.verify(&m, &Signature::from_str(sig).unwrap(), &PublicKey::from_str(public).unwrap()).is_ok()
}

/// The SHA-256 digest of `data` (`sha2::Sha256`).
///
/// Claims: the result is the named `sha256` of the data, 32 bytes long.
#[verifier::external_body]
pub fn sha256_digest(data: &[u8]) -> (d: Vec<u8>)
    ensures
        d@ == sha256(data@),
        d@.len() == 32,
{
    let mut hasher = sha2::Sha256::new();
    hasher.update(data);
    hasher.finalize().to_vec()
}

/// RC4 (`crypto::rc4::Rc4`) keyed with `key`, applied to `data`.
///
/// Claims: the result is the named `rc4` of key and data; it is as long as
/// the data; and since RC4 XORs the data with a keystream that depends on
/// the key alone, applying it again with the same key gives the data back.
/// `Rc4::new` panics on keys shorter than 1 or longer than 256 bytes.
#[verifier::external_body]
pub fn rc4_apply(key: &[u8], data: &[u8]) -> (out: Vec<u8>)
    requires
        1 <= key@.len() <= 256,
    ensures
        out@ == rc4(key@, data@),
        out@.len() == data@.len(),
        rc4(key@, out@) == data@,
{
    let mut cipher = crypto::rc4::Rc4::new(key);
    let mut out = vec![0u8; data.len()];
    cipher.process(data, &mut out);
    out
}

/// `n` characters drawn from `rand`'s thread-local generator over the
/// `Alphanumeric` distribution.
///
/// Claims: `n` characters, each an ASCII letter or digit. Which ones is left
/// open.
#[verifier::external_body]
pub fn random_alphanumeric(n: usize) -> (s: String)
    ensures
        s@.len() == n,
        forall|i: int| 0 <= i < n ==> is_alphanumeric(#[trigger] s@[i]),
{
    rand::thread_rng().sample_iter(&rand::distributions::Alphanumeric).take(n).map(char::from).collect()
}

/// An ASCII letter or digit.
pub open spec fn is_alphanumeric(c: char) -> bool {
    ('0' <= c && c <= '9') || ('a' <= c && c <= 'z') || ('A' <= c && c <= 'Z')
}

/// The bytes `public` encode a public key that both `secp256k1`'s
/// `PublicKey::from_str` and `ecies` read: they are what some text `p`
/// spells that `from_str` accepts, in the compressed (33 bytes) or the
/// uncompressed (65 bytes, first byte 4) encoding. The hybrid encodings
/// that `secp256k1` also accepts are left out: `ecies` refuses them.
pub open spec fn ecies_readable_key(p: Seq<char>, public: Seq<u8>) -> bool {
    &&& public_key_text(p) is Some
    &&& hex_decoded(p) == Some(public)
    &&& (public.len() == 33 || (public.len() == 65 && public[0] == 4u8))
}

/// The two flags of `ecies`'s global configuration that encryption and
/// decryption read.
#[derive(Clone, Copy, PartialEq, Eq, Debug, Structural)]
pub struct EciesSettings {
    /// `is_ephemeral_key_compressed`: the ephemeral key in a ciphertext is
    /// compressed (33 bytes) rather than uncompressed (65 bytes).
    pub ephemeral_key_compressed: bool,
    /// `is_hkdf_key_compressed`: the symmetric key is derived from the
    /// compressed encodings of the points.
    pub hkdf_key_compressed: bool,
}

/// The two flags of `ecies`'s global configuration as they stand.
///
/// Claims nothing of them: the configuration is process state.
#[verifier::external_body]
pub fn current_ecies_settings() -> (s: EciesSettings) {
    EciesSettings {
        ephemeral_key_compressed: ecies::config::is_ephemeral_key_compressed(),
        hkdf_key_compressed: ecies::config::is_hkdf_key_compressed(),
    }
}

/// `ecies::encrypt` of `message` to the public key with bytes `public`
/// (`None` where it fails), with the two flags of `ecies`'s global
/// configuration (`is_ephemeral_key_compressed`, `is_hkdf_key_compressed`)
/// read just before the call.
///
/// Claims: encryption succeeds for the bytes of every public key both
/// crates read (`ecies_readable_key`). The ciphertext is random, so only
/// this is stated of it: under the flags returned, the secret key with text
/// `t` whose public key is the one `public` encodes decrypts it back to
/// `message` (and `t` is hexadecimal text, as `SecretKey`'s `Display` writes
/// it). `ecies` reads the flags again inside the call; the claim takes them
/// to be the ones returned, which holds unless another thread changes the
/// configuration (`ecies::config::update_config`) in between. Nothing in
/// this crate or its tools changes it.
#[verifier::external_body]
pub fn ecies_encrypt(public: &[u8], message: &[u8]) -> (r: (EciesSettings, Option<Vec<u8>>))
    ensures
        forall|p: Seq<char>| #![trigger public_key_text(p)] ecies_readable_key(p, public@) ==> r.1 is Some,
        r.1 is Some ==> forall|t: Seq<char>, p: Seq<char>|
            #![trigger public_key_of(t), public_key_text(p)]
            is_secret_key_text(t) && public_key_text(p) == Some(public_key_of(t)) && hex_decoded(p) == Some(
                public@,
            ) ==> hex_decoded(t) is Some && ecies_decrypt(
                r.0.ephemeral_key_compressed,
                r.0.hkdf_key_compressed,
                hex_decoded(t).unwrap(),
                r.1->Some_0@,
            )
                == Some(message@),
{
    let flags = EciesSettings {
        ephemeral_key_compressed: ecies::config::is_ephemeral_key_compressed(),
        hkdf_key_compressed: ecies::config::is_hkdf_key_compressed(),
    };
    (flags, ecies::encrypt(public, message).ok())
}

/// `ecies::decrypt` of `ciphertext` with the secret key with bytes
/// `secret` (`None` where it fails), with the two flags of `ecies`'s global
/// configuration (`is_ephemeral_key_compressed`, `is_hkdf_key_compressed`)
/// read just before the call.
///
/// Claims: the result is the named `ecies_decrypt` under the flags returned,
/// of key and ciphertext. `ecies` reads the flags again inside the call; the
/// claim takes them to be the ones returned, which holds unless another
/// thread changes the configuration (`ecies::config::update_config`) in
/// between. Nothing in this crate or its tools changes it.
#[verifier::external_body]
pub fn ecies_decrypt_bytes(secret: &[u8], ciphertext: &[u8]) -> (r: (EciesSettings, Option<Vec<u8>>))
    ensures
        match r.1 {
            Some(m) => ecies_decrypt(r.0.ephemeral_key_compressed, r.0.hkdf_key_compressed, secret@, ciphertext@) == Some(m@),
            None => ecies_decrypt(r.0.ephemeral_key_compressed, r.0.hkdf_key_compressed, secret@, ciphertext@) is None,
        },
{
    let flags = EciesSettings {
        ephemeral_key_compressed: ecies::config::is_ephemeral_key_compressed(),
        hkdf_key_compressed: ecies::config::is_hkdf_key_compressed(),
    };
    (flags, ecies::decrypt(secret, ciphertext).ok())
}

/// `String::from_utf8`: the text that `bytes` encode in UTF-8, or `None`
/// when they are no valid UTF-8.
#[verifier::external_body]
pub fn utf8_to_string(bytes: Vec<u8>) -> (r: Option<String>)
    ensures
        match r {
            Some(s) => vstd::utf8::valid_utf8(bytes@) && s@ == vstd::utf8::decode_utf8(bytes@),
            None => !vstd::utf8::valid_utf8(bytes@),
        },
{
    String::from_utf8(bytes).ok()
}

} // verus!
