//! What a client sends the proof-of-human server.

use vstd::prelude::*;
use crate::crypto::{
    EciesSettings, ecdsa_signature, ecdsa_verifies, ecies_decrypt, is_secret_key_text, public_key_of, public_key_text,
    sha256, signature_text_valid,
};
use vstd::string::StringSliceAdditionalSpecFns;
use crate::hex::{hex_decoded, hex_lower};
use crate::keys::{encryptable_key, hash_string, sealed_to, try_secp256k1_encrypt, Cert, KeyMaster};
use vstd::utf8::encode_utf8;

verus! {

/// A request to open a session.
pub struct InitializeRequest {
    /// The public key of the fresh key pair for the session.
    pub msg: String,
    /// The client's public key.
    pub pub_key: String,
    /// The client's certificate signature.
    pub cert: String,
    /// The client's signature of the digest of the session's public key.
    pub msg_sig: String,
}

/// A request to challenge the holder of a public key.
pub struct ChallengeCreateRequest {
    pub session_key: String,
    /// How long the challenge stays open, in seconds.
    pub valid_time_sec: u64,
    /// The challenged identity, encrypted to the session key.
    pub pub_hash_enc: String,
}

/// How long a challenge stays open: four minutes.
pub const CHALLENGE_SECONDS: u64 = 240;

/// The request a client holding `keymaster` and certificate `cert` sends to
/// open a session for the fresh key pair `session_keys`: the session's public
/// key, the client's public key and certificate signature, and the client's
/// signature of the hexadecimal SHA-256 digest of the session's public key.
pub fn initialize_request(keymaster: &KeyMaster, cert: &Cert, session_keys: &KeyMaster) -> (r: InitializeRequest)
    ensures
        r.msg@ == session_keys.public_view(),
        r.pub_key@ == keymaster.public_view(),
        r.cert@ == cert.signature@,
        r.msg_sig@ == ecdsa_signature(
            hex_lower(sha256(encode_utf8(session_keys.public_view()))),
            keymaster.secret_view(),
        ),
        signature_text_valid(r.msg_sig@),
        ecdsa_verifies(
            hex_lower(sha256(encode_utf8(session_keys.public_view()))),
            r.msg_sig@,
            public_key_of(keymaster.secret_view()),
        ),
        keymaster.keys_match() ==> ecdsa_verifies(
            hex_lower(sha256(encode_utf8(r.msg@))),
            r.msg_sig@,
            r.pub_key@,
        ),
{
    let digest = hash_string(session_keys.public_key().as_str());
    InitializeRequest {
        msg: session_keys.public_key().clone(),
        pub_key: keymaster.public_key().clone(),
        cert: cert.signature.clone(),
        msg_sig: keymaster.sign(digest),
    }
}

/// The request that challenges identity `who` within session `session_key`:
/// open for four minutes, `who` encrypted to the session key; with the
/// `ecies` configuration the encryption ran under.
pub fn challenge_request(session_key: &str, who: &str) -> (r: (ChallengeCreateRequest, EciesSettings))
    requires
        encryptable_key(session_key@),
    ensures
        r.0.session_key@ == session_key@,
        r.0.valid_time_sec == 240,
        sealed_to(r.1, session_key@, r.0.pub_hash_enc@, who@),
        hex_decoded(r.0.pub_hash_enc@) is Some && forall|t: Seq<char>|
            #![trigger public_key_of(t)]
            is_secret_key_text(t) && public_key_text(session_key@) == Some(public_key_of(t)) ==> hex_decoded(t) is Some
                && ecies_decrypt(
                r.1.ephemeral_key_compressed,
                r.1.hkdf_key_compressed,
                hex_decoded(t).unwrap(),
                hex_decoded(r.0.pub_hash_enc@).unwrap(),
            ) == Some(who.spec_bytes()),
{
    try_challenge_request(session_key, who).unwrap()
}

/// As `challenge_request` for any session key text: `None` where
/// `try_secp256k1_encrypt` refuses it (never for a key both `secp256k1` and
/// `ecies` read).
pub fn try_challenge_request(session_key: &str, who: &str) -> (r: Option<(ChallengeCreateRequest, EciesSettings)>)
    ensures
        hex_decoded(session_key@) is None ==> r is None,
        encryptable_key(session_key@) ==> r is Some,
        r matches Some((req, settings)) ==> req.session_key@ == session_key@ && req.valid_time_sec == 240
            && sealed_to(settings, session_key@, req.pub_hash_enc@, who@),
        r matches Some((req, settings)) ==> hex_decoded(req.pub_hash_enc@) is Some && forall|t: Seq<char>|
            #![trigger public_key_of(t)]
            is_secret_key_text(t) && public_key_text(session_key@) == Some(public_key_of(t)) ==> hex_decoded(t) is Some
                && ecies_decrypt(
                settings.ephemeral_key_compressed,
                settings.hkdf_key_compressed,
                hex_decoded(t).unwrap(),
                hex_decoded(req.pub_hash_enc@).unwrap(),
            ) == Some(who.spec_bytes()),
{
    match try_secp256k1_encrypt(session_key, who) {
        Some((c, settings)) => Some(
            (
                ChallengeCreateRequest {
                    session_key: session_key.to_string(),
                    valid_time_sec: CHALLENGE_SECONDS,
                    pub_hash_enc: c,
                },
                settings,
            ),
        ),
        None => None,
    }
}

} // verus!
