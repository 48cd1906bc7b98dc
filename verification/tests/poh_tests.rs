use poh::poh::{VerifyAttachedSignatureRequest, VerifyDetachedSignatureRequest, VerifyResponse};

#[test]
fn attached_request_accessors() {
    let mut r = VerifyAttachedSignatureRequest::new();
    assert_eq!(r.get_file_attached_signature(), "");
    r.set_file_attached_signature("sig".to_string());
    assert_eq!(r.get_file_attached_signature(), "sig");
    r.mut_file_attached_signature().push_str("ned");
    assert_eq!(r.get_file_attached_signature(), "signed");
    assert_eq!(r.take_file_attached_signature(), "signed");
    assert_eq!(r.get_file_attached_signature(), "");
    r.set_file_attached_signature("x".to_string());
    r.clear_file_attached_signature();
    assert_eq!(r.file_attached_signature, "");
}

#[test]
fn detached_request_accessors_touch_one_field() {
    let mut r = VerifyDetachedSignatureRequest::new();
    r.set_detached_signature("s".to_string());
    r.set_file_contents("f".to_string());
    r.clear_detached_signature();
    assert_eq!(r.get_detached_signature(), "");
    assert_eq!(r.get_file_contents(), "f");
    r.mut_detached_signature().push('q');
    assert_eq!(r.take_detached_signature(), "q");
    r.mut_file_contents().push('g');
    assert_eq!(r.take_file_contents(), "fg");
    assert_eq!(r.get_file_contents(), "");
    r.set_file_contents("z".to_string());
    r.clear_file_contents();
    assert_eq!(r.get_file_contents(), "");
}

#[test]
fn response_accessors() {
    let mut r = VerifyResponse::new();
    assert!(!r.get_valid());
    r.set_valid(true);
    r.set_info("ok".to_string());
    assert!(r.get_valid());
    r.clear_valid();
    assert!(!r.get_valid());
    assert_eq!(r.get_info(), "ok");
    r.mut_info().push('!');
    assert_eq!(r.take_info(), "ok!");
    r.set_info("y".to_string());
    r.clear_info();
    assert_eq!(r.get_info(), "");
}

#[test]
fn detached_signature_calls_keep_file_contents() {
    let mut r = VerifyDetachedSignatureRequest::new();
    r.set_file_contents("contents".to_string());
    for i in 0..50 {
        match i % 4 {
            0 => r.set_detached_signature(format!("sig{}", i)),
            1 => r.clear_detached_signature(),
            2 => {
                let _ = r.take_detached_signature();
            }
            _ => r.mut_detached_signature().push('x'),
        }
        assert_eq!(r.get_file_contents(), "contents");
    }
}

#[test]
fn info_calls_keep_valid() {
    let mut r = VerifyResponse::new();
    r.set_valid(true);
    for i in 0..50 {
        match i % 4 {
            0 => r.set_info(format!("info{}", i)),
            1 => r.clear_info(),
            2 => {
                let _ = r.take_info();
            }
            _ => r.mut_info().push('x'),
        }
        assert!(r.get_valid());
    }
}
