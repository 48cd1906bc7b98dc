//! The proof-of-human server's decisions: which clients it admits, and what
//! it answers to each request.

use vstd::prelude::*;
use vstd::utf8::encode_utf8;
use crate::crypto::{check_signature_text, ecdsa_verifies, parse_public_key, public_key_text, sha256, signature_text_valid};
use crate::hex::hex_lower;
use crate::keys::{hash_string, Database, KeyMaster, RootCert, RootCerts};
use crate::session::{process, Challenge, RequestData, Session, SessionState};
use crate::table::KeyedTable;

verus! {

broadcast use vstd::string::group_string_axioms;

/// The server's state: the trusted authorities, its own keys, the database
/// of issued certificates, and the open sessions and challenges.
pub struct PohServer {
    pub rootcerts: RootCerts,
    pub keymaster: KeyMaster,
    pub database: Database,
    pub sessions: KeyedTable<Session>,
    pub challenges: KeyedTable<Challenge>,
}

/// The answer to a client's request to open a session.
pub struct InitializeResponse {
    pub valid: bool,
    pub msg: String,
    pub session_key: String,
}

/// The answer to a request to create a challenge.
pub struct ChallengeCreateResponse {
    pub valid: bool,
    pub info: String,
}

/// The answer to a reply to a challenge.
pub struct ChallengeReplyResponse {
    pub valid: bool,
    pub info: String,
}

/// Every root certificate's public key is text the `secp256k1` crate
/// accepts.
pub open spec fn root_keys_usable(certs: Seq<RootCert>) -> bool {
    forall|i: int| 0 <= i < certs.len() ==> (#[trigger] public_key_text(certs[i].public_key@)) is Some
}

/// The issuer of the last root certificate, in order, whose public key
/// accepts `cert` as a signature of `pub_key`; `None` when none does.
pub open spec fn verifying_issuer(certs: Seq<RootCert>, pub_key: Seq<char>, cert: Seq<char>) -> Option<
    Seq<char>,
>
    decreases certs.len(),
{
    if certs.len() == 0 {
        None
    } else if ecdsa_verifies(pub_key, cert, certs.last().public_key@) {
        Some(certs.last().issuer@)
    } else {
        verifying_issuer(certs.drop_last(), pub_key, cert)
    }
}

/// The key under which the database records the client with public key
/// `pub_key`: the hexadecimal SHA-256 digest of the key's text.
pub open spec fn database_key(pub_key: Seq<char>) -> Seq<char> {
    hex_lower(sha256(encode_utf8(pub_key)))
}

/// The server admits the client: some root certificate accepts `cert` as a
/// signature of `pub_key`, and the database records the client under
/// `database_key(pub_key)` with the issuer of the last such root.
pub open spec fn client_admitted(
    certs: Seq<RootCert>,
    db: Map<Seq<char>, crate::keys::DatabaseEntry>,
    pub_key: Seq<char>,
    cert: Seq<char>,
) -> bool {
    &&& verifying_issuer(certs, pub_key, cert) is Some
    &&& db.dom().contains(database_key(pub_key))
    &&& db[database_key(pub_key)].issuer@ == verifying_issuer(certs, pub_key, cert).unwrap()
}

/// What answering an Initialize request for `pub_key` with certificate
/// signature `cert` at time `now` does: only the sessions may change; an
/// admitted client gets a session under its public key (a new one, created
/// at `now` for five minutes, unless one is open); a client not admitted is
/// told its validity was checked, and nothing changes.
pub open spec fn initialize_outcome(
    before: PohServer,
    after: PohServer,
    pub_key: Seq<char>,
    cert: Seq<char>,
    now: u64,
    r: InitializeResponse,
) -> bool {
    &&& after.rootcerts == before.rootcerts
    &&& after.keymaster == before.keymaster
    &&& after.database == before.database
    &&& after.challenges@ == before.challenges@
    &&& r.valid == client_admitted(before.rootcerts.certs@, before.database.entries@, pub_key, cert)
    &&& !r.valid ==> r.msg@ == "Checked client validity"@ && r.session_key@ == Seq::<char>::empty()
        && after.sessions@ == before.sessions@
    &&& r.valid ==> r.session_key@ == pub_key && if before.sessions@.dom().contains(pub_key) {
        &&& r.msg@ == "Session has already been initialized"@
        &&& after.sessions@ == before.sessions@
    } else {
        &&& r.msg@ == "Initialized a new session"@
        &&& after.sessions@.dom() == before.sessions@.dom().insert(pub_key)
        &&& after.sessions@.remove(pub_key) == before.sessions@
        &&& after.sessions@[pub_key].client_pub_key@ == pub_key
        &&& after.sessions@[pub_key].state is Initialize
        &&& after.sessions@[pub_key].valid_seconds == 300
        &&& after.sessions@[pub_key].time == now
    }
}

impl PohServer {
    /// A server with no open sessions or challenges.
    pub fn new(rootcerts: RootCerts, keymaster: KeyMaster, database: Database) -> (s: PohServer)
        ensures
            s.rootcerts == rootcerts,
            s.keymaster == keymaster,
            s.database == database,
            s.sessions@ == Map::<Seq<char>, Session>::empty(),
            s.challenges@ == Map::<Seq<char>, Challenge>::empty(),
    {
        PohServer { rootcerts, keymaster, database, sessions: KeyedTable::new(), challenges: KeyedTable::new() }
    }

    /// Whether every root certificate's public key is text the `secp256k1`
    /// crate accepts.
    pub fn roots_usable(&self) -> (b: bool)
        ensures
            b == root_keys_usable(self.rootcerts.certs@),
    {
        let mut i: usize = 0;
        while i < self.rootcerts.certs.len()
            invariant
                i <= self.rootcerts.certs@.len(),
                forall|j: int| 0 <= j < i ==> (#[trigger] public_key_text(self.rootcerts.certs@[j].public_key@)) is Some,
            decreases self.rootcerts.certs@.len() - i,
        {
            if parse_public_key(self.rootcerts.certs[i].public_key.as_str()).is_none() {
                return false;
            }
            i = i + 1;
        }
        true
    }

    /// The issuer of the last root certificate that accepts `cert` as a
    /// signature of `pub_key`, if any.
    fn find_issuer(&self, pub_key: &str, cert: &str) -> (r: Option<String>)
        requires
            root_keys_usable(self.rootcerts.certs@),
            self.rootcerts.certs@.len() > 0 ==> signature_text_valid(cert@),
        ensures
            match r {
                Some(s) => verifying_issuer(self.rootcerts.certs@, pub_key@, cert@) == Some(s@),
                None => verifying_issuer(self.rootcerts.certs@, pub_key@, cert@) is None,
            },
    {
        let certs = &self.rootcerts.certs;
        let mut found: Option<String> = None;
        let mut i: usize = 0;
        while i < certs.len()
            invariant
                certs@ == self.rootcerts.certs@,
                root_keys_usable(certs@),
                certs@.len() > 0 ==> signature_text_valid(cert@),
                i <= certs@.len(),
                match found {
                    Some(s) => verifying_issuer(certs@.subrange(0, i as int), pub_key@, cert@) == Some(s@),
                    None => verifying_issuer(certs@.subrange(0, i as int), pub_key@, cert@) is None,
                },
            decreases certs@.len() - i,
        {
            proof {
                assert(public_key_text(certs@[i as int].public_key@) is Some);
                let next = certs@.subrange(0, i + 1);
                assert(next.drop_last() =~= certs@.subrange(0, i as int));
                assert(next.last() == certs@[i as int]);
            }
            if self.keymaster.verify_with_public_key(certs[i].public_key.as_str(), pub_key, cert) {
                found = Some(certs[i].issuer.clone());
            }
            i = i + 1;
        }
        proof {
            assert(certs@.subrange(0, certs@.len() as int) =~= certs@);
        }
        found
    }

    /// Answers a client that asks, at time `now`, to open a session for
    /// public key `pub_key` with certificate signature `cert`. An admitted
    /// client gets a session under its public key (a new one unless one is
    /// open); a client not admitted changes nothing.
    pub fn initialize(&mut self, pub_key: &str, cert: &str, now: u64) -> (r: InitializeResponse)
        requires
            root_keys_usable(old(self).rootcerts.certs@),
            old(self).rootcerts.certs@.len() > 0 ==> signature_text_valid(cert@),
        ensures
            initialize_outcome(*old(self), *final(self), pub_key@, cert@, now, r),
    {
        let issuer = self.find_issuer(pub_key, cert);
        let mut valid = issuer.is_some();
        let cert_issuer = match issuer {
            Some(s) => s,
            None => String::new(),
        };
        let pub_key_hash = hash_string(pub_key);
        match self.database.entries.get(&pub_key_hash) {
            Some(entry) => {
                if !(cert_issuer == entry.issuer) {
                    valid = false;
                }
            },
            None => {
                valid = false;
            },
        }
        let mut r = InitializeResponse {
            valid,
            msg: "Checked client validity".to_string(),
            session_key: String::new(),
        };
        if valid {
            let session = Session::new(pub_key, now);
            let res = process(
                &mut self.sessions,
                &mut self.challenges,
                SessionState::Initialize,
                Some(RequestData::Session(session)),
            );
            let res = res.unwrap();
            r.msg = res.msg;
            r.session_key = res.session_key;
            proof {
                if !old(self).sessions@.dom().contains(pub_key@) {
                    assert(self.sessions@.dom() =~= old(self).sessions@.dom().insert(pub_key@));
                    assert(self.sessions@.remove(pub_key@) =~= old(self).sessions@);
                }
            }
        }
        r
    }

    /// As `initialize` when the root certificates' keys and, if there are
    /// root certificates, the signature are texts the `secp256k1` crate
    /// accepts; `None`, changing nothing, otherwise.
    pub fn try_initialize(&mut self, pub_key: &str, cert: &str, now: u64) -> (r: Option<InitializeResponse>)
        ensures
            r is Some == (root_keys_usable(old(self).rootcerts.certs@) && (old(self).rootcerts.certs@.len() > 0
                ==> signature_text_valid(cert@))),
            r is None ==> *final(self) == *old(self),
            r matches Some(resp) ==> initialize_outcome(*old(self), *final(self), pub_key@, cert@, now, resp),
    {
        if !self.roots_usable() {
            return None;
        }
        if self.rootcerts.certs.len() > 0 && !check_signature_text(cert) {
            return None;
        }
        Some(self.initialize(pub_key, cert, now))
    }
}

/// The answer to a request to create a challenge: not implemented yet.
pub fn challenge_create_response() -> (r: ChallengeCreateResponse)
    ensures
        !r.valid,
        r.info@ == "not implemented yet"@,
{
    ChallengeCreateResponse { valid: false, info: "not implemented yet".to_string() }
}

/// The answer to a reply to a challenge: the empty answer.
pub fn challenge_reply_response() -> (r: ChallengeReplyResponse)
    ensures
        !r.valid,
        r.info@ == Seq::<char>::empty(),
{
    ChallengeReplyResponse { valid: false, info: String::new() }
}


/// A certificate signature that some root certificate's key accepts makes
/// the signature check pass: some issuer is found.
pub proof fn law_accepted_signature_finds_issuer(certs: Seq<RootCert>, pub_key: Seq<char>, cert: Seq<char>, j: int)
    requires
        0 <= j < certs.len(),
        ecdsa_verifies(pub_key, cert, certs[j].public_key@),
    ensures
        verifying_issuer(certs, pub_key, cert) is Some,
    decreases certs.len(),
{
    if j < certs.len() - 1 {
        if !ecdsa_verifies(pub_key, cert, certs.last().public_key@) {
            assert(certs.drop_last()[j] == certs[j]);
            law_accepted_signature_finds_issuer(certs.drop_last(), pub_key, cert, j);
        }
    }
}

/// The issuer found is that of a root certificate whose key accepts the
/// signature, and no later root certificate's key accepts it.
pub proof fn law_found_issuer_is_last_accepting(certs: Seq<RootCert>, pub_key: Seq<char>, cert: Seq<char>)
    requires
        verifying_issuer(certs, pub_key, cert) is Some,
    ensures
        exists|j: int|
            0 <= j < certs.len() && ecdsa_verifies(pub_key, cert, #[trigger] certs[j].public_key@)
                && certs[j].issuer@ == verifying_issuer(certs, pub_key, cert).unwrap() && forall|k: int|
                j < k < certs.len() ==> !ecdsa_verifies(pub_key, cert, #[trigger] certs[k].public_key@),
    decreases certs.len(),
{
    let n = certs.len();
    if ecdsa_verifies(pub_key, cert, certs.last().public_key@) {
        assert(certs[n - 1] == certs.last());
    } else {
        let t = certs.drop_last();
        law_found_issuer_is_last_accepting(t, pub_key, cert);
        let j = choose|j: int|
            0 <= j < t.len() && ecdsa_verifies(pub_key, cert, #[trigger] t[j].public_key@)
                && t[j].issuer@ == verifying_issuer(t, pub_key, cert).unwrap() && forall|k: int|
                j < k < t.len() ==> !ecdsa_verifies(pub_key, cert, #[trigger] t[k].public_key@);
        assert(certs[j] == t[j]);
        assert forall|k: int| j < k < certs.len() implies !ecdsa_verifies(pub_key, cert, #[trigger] certs[k].public_key@) by {
            if k < n - 1 {
                assert(certs[k] == t[k]);
            } else {
                assert(certs[k] == certs.last());
            }
        }
    }
}

/// With no root certificates, no client is admitted.
pub proof fn law_no_roots_no_admission(
    db: Map<Seq<char>, crate::keys::DatabaseEntry>,
    pub_key: Seq<char>,
    cert: Seq<char>,
)
    ensures
        !client_admitted(Seq::<RootCert>::empty(), db, pub_key, cert),
{
}

/// A client whose certificate signature a root certificate's key accepts,
/// recorded in the database under the digest of its key with that root's
/// issuer, where no later root accepts the signature, is admitted.
pub proof fn law_issued_client_admitted(
    certs: Seq<RootCert>,
    db: Map<Seq<char>, crate::keys::DatabaseEntry>,
    pub_key: Seq<char>,
    cert: Seq<char>,
    j: int,
)
    requires
        0 <= j < certs.len(),
        ecdsa_verifies(pub_key, cert, certs[j].public_key@),
        forall|k: int| j < k < certs.len() ==> !ecdsa_verifies(pub_key, cert, #[trigger] certs[k].public_key@),
        db.dom().contains(database_key(pub_key)),
        db[database_key(pub_key)].issuer@ == certs[j].issuer@,
    ensures
        client_admitted(certs, db, pub_key, cert),
    decreases certs.len(),
{
    lemma_issuer_of_last(certs, pub_key, cert, j);
}

/// The issuer found is that of the last root certificate whose key accepts
/// the signature.
proof fn lemma_issuer_of_last(certs: Seq<RootCert>, pub_key: Seq<char>, cert: Seq<char>, j: int)
    requires
        0 <= j < certs.len(),
        ecdsa_verifies(pub_key, cert, certs[j].public_key@),
        forall|k: int| j < k < certs.len() ==> !ecdsa_verifies(pub_key, cert, #[trigger] certs[k].public_key@),
    ensures
        verifying_issuer(certs, pub_key, cert) == Some(certs[j].issuer@),
    decreases certs.len(),
{
    let n = certs.len();
    if j == n - 1 {
        assert(certs[j] == certs.last());
    } else {
        let t = certs.drop_last();
        assert(certs[n - 1] == certs.last());
        assert(!ecdsa_verifies(pub_key, cert, certs[n - 1].public_key@));
        assert(t[j] == certs[j]);
        assert forall|k: int| j < k < t.len() implies !ecdsa_verifies(pub_key, cert, #[trigger] t[k].public_key@) by {
            assert(t[k] == certs[k]);
        }
        lemma_issuer_of_last(t, pub_key, cert, j);
    }
}

} // verus!
