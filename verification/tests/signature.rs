use floorp_installer::signature::{
    check_downloaded_installer_code_sign, get_signer_name, is_trusted_signer, verify_signature, SignatureEvent, SignatureStep,
    NAME_CAPACITY,
};

fn name_event(name: &str) -> SignatureEvent {
    let mut units: Vec<u16> = name.encode_utf16().collect();
    let len = units.len() as u32 + 1;
    units.resize(NAME_CAPACITY, 0);
    SignatureEvent::Name { len, units }
}

#[test]
fn signers_of_the_project_are_trusted() {
    assert!(is_trusted_signer("SignPath Foundation"));
    assert!(is_trusted_signer("CN=SignPath Foundation, C=US"));
    assert!(is_trusted_signer("Open Source Developer, Ryosuke Asano"));
    assert!(!is_trusted_signer("signpath foundation"));
    assert!(!is_trusted_signer("Ryosuke Asano"));
    assert!(!is_trusted_signer(""));
}

#[test]
fn name_is_read_without_its_end() {
    assert_eq!(get_signer_name(0, &vec![0x41; 4]), None);
    assert_eq!(get_signer_name(1, &vec![0x41; 4]), Some("".to_string()));
    assert_eq!(get_signer_name(3, &vec![0x41, 0x42, 0, 0]), Some("AB".to_string()));
    assert_eq!(get_signer_name(5, &vec![0x41, 0x42, 0x43, 0x44]), Some("ABCD".to_string()));
    assert_eq!(get_signer_name(2, &vec![0xd800, 0]), Some("\u{fffd}".to_string()));
}

#[test]
fn check_begins_with_a_file() {
    let check = check_downloaded_installer_code_sign;
    assert_eq!(check("p", true, true), SignatureStep::CheckTrust);
    for is_file in [true, false] {
        assert_eq!(
            check("T\\f.exe", false, is_file),
            SignatureStep::Done(Err("rust.errors.file_not_found|T\\f.exe".to_string()))
        );
    }
    assert_eq!(
        check("T", true, false),
        SignatureStep::Done(Err("rust.errors.not_a_file|T".to_string()))
    );
}

#[test]
fn trusted_signature_passes_every_step() {
    let step = verify_signature(SignatureStep::CheckTrust, &SignatureEvent::Trust(0));
    assert_eq!(step, SignatureStep::QueryObject);
    let step = verify_signature(step, &SignatureEvent::Queried(Ok(())));
    assert_eq!(step, SignatureStep::FindCertificate);
    let step = verify_signature(step, &SignatureEvent::Certificate(true));
    assert_eq!(step, SignatureStep::ReadName);
    let step = verify_signature(step, &name_event("SignPath Foundation"));
    assert_eq!(step, SignatureStep::Done(Ok(true)));
}

#[test]
fn invalid_signature_is_refused_at_once() {
    for code in [-2146762496, -1, 1] {
        let step = verify_signature(SignatureStep::CheckTrust, &SignatureEvent::Trust(code));
        assert_eq!(step, SignatureStep::Done(Ok(false)));
    }
}

#[test]
fn unreadable_signature_is_an_error() {
    let step = verify_signature(
        SignatureStep::QueryObject,
        &SignatureEvent::Queried(Err(2148081673)),
    );
    assert_eq!(
        step,
        SignatureStep::Done(Err(
            "CryptQueryObject failed: error code 2148081673".to_string()
        ))
    );
}

#[test]
fn missing_certificate_or_name_is_refused() {
    let step = verify_signature(
        SignatureStep::FindCertificate,
        &SignatureEvent::Certificate(false),
    );
    assert_eq!(step, SignatureStep::Done(Ok(false)));
    let step = verify_signature(
        SignatureStep::ReadName,
        &SignatureEvent::Name { len: 0, units: vec![0; NAME_CAPACITY] },
    );
    assert_eq!(step, SignatureStep::Done(Ok(false)));
    let step = verify_signature(SignatureStep::ReadName, &name_event("Somebody Else"));
    assert_eq!(step, SignatureStep::Done(Ok(false)));
}

#[test]
fn other_events_change_nothing() {
    let step = verify_signature(SignatureStep::CheckTrust, &SignatureEvent::Certificate(true));
    assert_eq!(step, SignatureStep::CheckTrust);
    let step = verify_signature(SignatureStep::Done(Ok(false)), &SignatureEvent::Trust(0));
    assert_eq!(step, SignatureStep::Done(Ok(false)));
}
