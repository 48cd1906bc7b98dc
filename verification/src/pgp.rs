//! The signature-checking service's decisions: when an OpenPGP message's
//! signatures count as good, and what the service answers.
//!
//! The OpenPGP parsing and the cryptographic checks happen outside; these
//! functions take their outcomes as plain values.

use vstd::prelude::*;
use crate::poh::VerifyResponse;

verus! {

broadcast use vstd::string::group_string_axioms;

/// One layer of a signed message's structure, as the verifier reports it.
pub enum MessageLayer {
    /// A compression layer.
    Compression,
    /// An encryption layer.
    Encryption,
    /// A group of signatures over the data: for each, whether it checked
    /// out, in the order the verifier lists them.
    SignatureGroup { results: Vec<bool> },
}

/// Why a message's signatures are not accepted.
pub enum CheckError {
    /// The first signature of the signature group at this layer did not
    /// check out.
    BadSignature { layer: usize },
    /// A signature group holds no signature.
    NoSignature,
    /// No signature group was found.
    VerificationFailed,
}

/// The verdict on the layers from index `i` onwards, where `good` records
/// whether an earlier signature group was accepted: each signature group's
/// first signature decides it; a bad or missing one ends the check with an
/// error; at the end some group must have been accepted.
pub open spec fn check_layers(layers: Seq<MessageLayer>, i: int, good: bool) -> Result<(), CheckError>
    decreases layers.len() - i,
{
    if i >= layers.len() || i < 0 {
        if good {
            Ok(())
        } else {
            Err(CheckError::VerificationFailed)
        }
    } else {
        match layers[i] {
            MessageLayer::SignatureGroup { results } => {
                if results@.len() == 0 {
                    Err(CheckError::NoSignature)
                } else if results@[0] {
                    check_layers(layers, i + 1, true)
                } else {
                    Err(CheckError::BadSignature { layer: i as usize })
                }
            },
            _ => check_layers(layers, i + 1, good),
        }
    }
}

/// The verdict on a signed message's structure.
pub fn check(layers: &Vec<MessageLayer>) -> (r: Result<(), CheckError>)
    ensures
        r == check_layers(layers@, 0, false),
        r is Ok <==> (has_group_from(layers@, 0) && groups_accepted_from(layers@, 0)),
{
    proof {
        law_check_accepts_exactly(layers@);
    }
    let mut good = false;
    let mut i: usize = 0;
    while i < layers.len()
        invariant
            i <= layers@.len(),
            check_layers(layers@, 0, false) == check_layers(layers@, i as int, good),
        decreases layers@.len() - i,
    {
        match &layers[i] {
            MessageLayer::SignatureGroup { results } => {
                if results.len() == 0 {
                    return Err(CheckError::NoSignature);
                } else if results[0] {
                    good = true;
                } else {
                    return Err(CheckError::BadSignature { layer: i });
                }
            },
            _ => {},
        }
        i = i + 1;
    }
    if good {
        Ok(())
    } else {
        Err(CheckError::VerificationFailed)
    }
}

/// Whether any of the keyring's certificates verified the signature.
pub open spec fn any_verified(verdicts: Seq<bool>) -> bool {
    exists|i: int| 0 <= i < verdicts.len() && verdicts[i]
}

/// The verdict on an attached signature, given for each certificate of the
/// keyring, in order, whether verification against it succeeded: good when
/// one did.
pub fn process_attached_signature(verdicts: &Vec<bool>) -> (r: Result<(), ()>)
    ensures
        r is Ok == any_verified(verdicts@),
        r is Ok <==> exists|i: int| 0 <= i < verdicts@.len() && #[trigger] verdicts@[i],
        (forall|i: int| 0 <= i < verdicts@.len() ==> !#[trigger] verdicts@[i]) ==> r is Err,
{
    let mut good = false;
    let mut i: usize = 0;
    while i < verdicts.len()
        invariant
            i <= verdicts@.len(),
            good == exists|j: int| 0 <= j < i && verdicts@[j],
        decreases verdicts@.len() - i,
    {
        if verdicts[i] {
            good = true;
        }
        i = i + 1;
    }
    if good {
        Ok(())
    } else {
        Err(())
    }
}

/// The answer to a request to check an attached signature, given for each
/// certificate of the keyring whether verification against it succeeded.
pub fn verify_attached_signature(verdicts: &Vec<bool>) -> (r: VerifyResponse)
    ensures
        r.valid == any_verified(verdicts@),
        r.valid <==> exists|i: int| 0 <= i < verdicts@.len() && #[trigger] verdicts@[i],
        r.valid ==> r.info@ == "Valid signature"@,
        !r.valid ==> r.info@ == "Invalid signature"@,
{
    let mut r = VerifyResponse::new();
    if process_attached_signature(verdicts).is_ok() {
        r.set_valid(true);
        r.set_info("Valid signature".to_string());
    } else {
        r.set_valid(false);
        r.set_info("Invalid signature".to_string());
    }
    r
}

/// The answer to a request to check a detached signature: not implemented
/// yet.
pub fn verify_detached_signature() -> (r: VerifyResponse)
    ensures
        !r.valid,
        r.info@ == "Not implemented yet"@,
{
    let mut r = VerifyResponse::new();
    r.set_info("Not implemented yet".to_string());
    r.set_valid(false);
    r
}


/// A message without any signature group is refused: no signature was
/// found that could vouch for it.
pub proof fn law_unsigned_message_refused(layers: Seq<MessageLayer>, i: int, good: bool)
    requires
        0 <= i,
        forall|k: int| 0 <= k < layers.len() ==> !((#[trigger] layers[k]) is SignatureGroup),
    ensures
        check_layers(layers, i, good) == if good {
            Ok::<(), CheckError>(())
        } else {
            Err(CheckError::VerificationFailed)
        },
    decreases layers.len() - i,
{
    if i < layers.len() {
        law_unsigned_message_refused(layers, i + 1, good);
    }
}

/// A signature group whose first signature does not check out refuses the
/// message, whatever follows, naming that group's layer.
pub proof fn law_bad_first_signature_refused(layers: Seq<MessageLayer>, i: int, good: bool)
    requires
        0 <= i < layers.len(),
        i <= usize::MAX,
        layers[i] matches MessageLayer::SignatureGroup { results } && results@.len() > 0 && !results@[0],
    ensures
        check_layers(layers, i, good) == Err::<(), CheckError>(CheckError::BadSignature { layer: i as usize }),
{
}

/// A signature group whose first signature checked out.
pub open spec fn accepted_group(layer: MessageLayer) -> bool {
    layer matches MessageLayer::SignatureGroup { results } && results@.len() > 0 && results@[0]
}

/// Every signature group from layer `i` on has a first signature that
/// checked out.
pub open spec fn groups_accepted_from(layers: Seq<MessageLayer>, i: int) -> bool {
    forall|k: int| i <= k < layers.len() && (#[trigger] layers[k]) is SignatureGroup ==> accepted_group(layers[k])
}

/// Some layer from `i` on is a signature group.
pub open spec fn has_group_from(layers: Seq<MessageLayer>, i: int) -> bool {
    exists|k: int| i <= k < layers.len() && (#[trigger] layers[k]) is SignatureGroup
}

/// The verdict from layer `i` on is acceptance exactly when every signature
/// group from there on is accepted and one was accepted before or comes.
proof fn lemma_check_layers_ok(layers: Seq<MessageLayer>, i: int, good: bool)
    requires
        0 <= i <= layers.len(),
    ensures
        check_layers(layers, i, good) is Ok <==> (groups_accepted_from(layers, i) && (good || has_group_from(
            layers,
            i,
        ))),
    decreases layers.len() - i,
{
    if i < layers.len() {
        match layers[i] {
            MessageLayer::SignatureGroup { results } => {
                if results@.len() > 0 && results@[0] {
                    lemma_check_layers_ok(layers, i + 1, true);
                    assert(has_group_from(layers, i));
                    if groups_accepted_from(layers, i + 1) {
                        assert forall|k: int| i <= k < layers.len() && (#[trigger] layers[k]) is SignatureGroup implies accepted_group(
                            layers[k],
                        ) by {
                            if k == i {
                            } else {
                                assert(i + 1 <= k);
                            }
                        }
                    }
                } else {
                    assert(!accepted_group(layers[i]));
                }
            },
            _ => {
                lemma_check_layers_ok(layers, i + 1, good);
                if has_group_from(layers, i) {
                    let k = choose|k: int| i <= k < layers.len() && (#[trigger] layers[k]) is SignatureGroup;
                    assert(k != i);
                    assert(has_group_from(layers, i + 1));
                }
                if has_group_from(layers, i + 1) {
                    let k = choose|k: int| i + 1 <= k < layers.len() && (#[trigger] layers[k]) is SignatureGroup;
                    assert(has_group_from(layers, i));
                }
            },
        }
    }
}

/// A message is accepted exactly when it has a signature group and every
/// signature group's first signature checked out.
pub proof fn law_check_accepts_exactly(layers: Seq<MessageLayer>)
    ensures
        check_layers(layers, 0, false) is Ok <==> (has_group_from(layers, 0) && groups_accepted_from(layers, 0)),
{
    lemma_check_layers_ok(layers, 0, false);
}

/// A signature group whose first signature checked out counts, at whatever
/// layer it stands: the verdict goes on from the next layer with a group
/// accepted.
pub proof fn law_accepted_group_counts(layers: Seq<MessageLayer>, i: int, good: bool)
    requires
        0 <= i < layers.len(),
        accepted_group(layers[i]),
    ensures
        check_layers(layers, i, good) == check_layers(layers, i + 1, true),
{
}

/// The first signature group whose first signature did not check out (or
/// that holds none) decides the refusal, naming its layer.
pub proof fn law_first_bad_group_refuses(layers: Seq<MessageLayer>, j: int)
    requires
        0 <= j < layers.len(),
        j <= usize::MAX,
        layers[j] is SignatureGroup,
        !accepted_group(layers[j]),
        forall|k: int| 0 <= k < j && (#[trigger] layers[k]) is SignatureGroup ==> accepted_group(layers[k]),
    ensures
        check_layers(layers, 0, false) == (match layers[j] {
            MessageLayer::SignatureGroup { results } => if results@.len() == 0 {
                Err::<(), CheckError>(CheckError::NoSignature)
            } else {
                Err(CheckError::BadSignature { layer: j as usize })
            },
            _ => Err(CheckError::VerificationFailed),
        }),
{
    lemma_prefix_passes(layers, 0, false, j);
}

/// Layers before `j` with no refused group pass the verdict on to layer `j`.
proof fn lemma_prefix_passes(layers: Seq<MessageLayer>, i: int, good: bool, j: int)
    requires
        0 <= i <= j < layers.len(),
        forall|k: int| 0 <= k < j && (#[trigger] layers[k]) is SignatureGroup ==> accepted_group(layers[k]),
    ensures
        exists|g: bool| check_layers(layers, i, good) == #[trigger] check_layers(layers, j, g),
    decreases j - i,
{
    if i == j {
        assert(check_layers(layers, i, good) == check_layers(layers, j, good));
    } else {
        if layers[i] is SignatureGroup {
            assert(accepted_group(layers[i]));
            lemma_prefix_passes(layers, i + 1, true, j);
        } else {
            lemma_prefix_passes(layers, i + 1, good, j);
        }
    }
}

} // verus!
