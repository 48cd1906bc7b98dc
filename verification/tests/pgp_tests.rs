use poh::pgp::{check, process_attached_signature, verify_attached_signature, verify_detached_signature, CheckError, MessageLayer};

#[test]
fn good_first_signature_is_accepted() {
    let layers = vec![MessageLayer::Compression, MessageLayer::SignatureGroup { results: vec![true, false] }];
    assert!(check(&layers).is_ok());
}

#[test]
fn bad_first_signature_is_refused() {
    let layers = vec![MessageLayer::SignatureGroup { results: vec![false, true] }];
    assert!(matches!(check(&layers), Err(CheckError::BadSignature { layer: 0 })));
    let layers = vec![
        MessageLayer::SignatureGroup { results: vec![true] },
        MessageLayer::SignatureGroup { results: vec![false] },
    ];
    assert!(matches!(check(&layers), Err(CheckError::BadSignature { layer: 1 })));
}

#[test]
fn empty_group_and_unsigned_message_are_refused() {
    let layers = vec![MessageLayer::SignatureGroup { results: vec![] }];
    assert!(matches!(check(&layers), Err(CheckError::NoSignature)));
    let layers = vec![MessageLayer::Encryption, MessageLayer::Compression];
    assert!(matches!(check(&layers), Err(CheckError::VerificationFailed)));
    assert!(matches!(check(&vec![]), Err(CheckError::VerificationFailed)));
}

#[test]
fn attached_signature_is_good_when_one_certificate_verifies() {
    assert!(process_attached_signature(&vec![false, true, false]).is_ok());
    assert!(process_attached_signature(&vec![false, false]).is_err());
    assert!(process_attached_signature(&vec![]).is_err());
    let r = verify_attached_signature(&vec![true]);
    assert!(r.valid);
    assert_eq!(r.info, "Valid signature");
    let r = verify_attached_signature(&vec![false]);
    assert!(!r.valid);
    assert_eq!(r.info, "Invalid signature");
}

#[test]
fn detached_signature_not_implemented() {
    let r = verify_detached_signature();
    assert!(!r.valid);
    assert_eq!(r.info, "Not implemented yet");
}
