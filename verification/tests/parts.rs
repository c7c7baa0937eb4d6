use certix_contract::certificate::same_hash;
use certix_contract::store::is_consistent;
use certix_contract::{Certificate, CertificateStatus, CertixContract, RegistryError};

const H1: [u8; 32] = [1; 32];
const H2: [u8; 32] = [2; 32];
const T1: [u8; 32] = [3; 32];

fn approved(file_hash: [u8; 32]) -> Certificate {
    let mut cert = Certificate::pending(String::from("owner"), file_hash, T1);
    cert.status = CertificateStatus::Approved;
    cert.admin = Some(String::from("admin"));
    cert.validated_at = Some(77);
    cert
}

#[test]
fn same_hash_compares_every_byte() {
    assert!(same_hash(&H1, &H1));
    assert!(!same_hash(&H1, &H2));
    let mut first = H1;
    first[0] = 9;
    assert!(!same_hash(&H1, &first));
    let mut last = H1;
    last[31] = 9;
    assert!(!same_hash(&H1, &last));
    last[31] = 1;
    assert!(same_hash(&H1, &last));
}

#[test]
fn no_records_are_consistent() {
    assert!(is_consistent(&Vec::new()));
}

#[test]
fn repeated_hash_is_inconsistent() {
    let records = vec![
        Certificate::pending(String::from("a"), H1, T1),
        Certificate::pending(String::from("b"), H2, T1),
        Certificate::pending(String::from("c"), H1, T1),
    ];
    assert!(!is_consistent(&records));
    assert!(CertixContract::from_parts(None, records).is_none());
}

#[test]
fn ill_formed_record_is_inconsistent() {
    let mut broken = Certificate::pending(String::from("a"), H2, T1);
    broken.validated_at = Some(1);
    let records = vec![Certificate::pending(String::from("a"), H1, T1), broken];
    assert!(!is_consistent(&records));
    assert!(CertixContract::from_parts(Some(String::from("admin")), records).is_none());
}

#[test]
fn registry_from_parts_holds_the_parts() {
    let records = vec![approved(H1), Certificate::pending(String::from("owner"), H2, T1)];
    assert!(is_consistent(&records));
    let mut registry = CertixContract::from_parts(Some(String::from("admin")), records).unwrap();
    assert_eq!(registry.is_approved(H1), Ok(true));
    assert_eq!(registry.is_approved(H2), Ok(false));
    let cert = registry.get_certificate(H1).unwrap();
    assert_eq!(cert.admin, Some(String::from("admin")));
    assert_eq!(cert.validated_at, Some(77));
    assert_eq!(
        registry.approve_certificate(String::from("admin"), H1, 80),
        Err(RegistryError::AlreadyProcessed)
    );
    assert_eq!(
        registry.approve_certificate(String::from("nobody"), H2, 80),
        Err(RegistryError::Unauthorized)
    );
    assert_eq!(registry.approve_certificate(String::from("admin"), H2, 81), Ok(()));
    assert_eq!(registry.get_certificate(H2).unwrap().validated_at, Some(81));
    assert_eq!(
        registry.register_certificate(String::from("x"), H1, T1),
        Err(RegistryError::DuplicateCertificate)
    );
}

#[test]
fn registry_from_parts_without_administrator_is_not_initialized() {
    let records = vec![Certificate::pending(String::from("owner"), H1, T1)];
    let mut registry = CertixContract::from_parts(None, records).unwrap();
    assert_eq!(
        registry.approve_certificate(String::from("admin"), H1, 1),
        Err(RegistryError::NotInitialized)
    );
    registry.initialize(String::from("admin"));
    assert_eq!(registry.approve_certificate(String::from("admin"), H1, 2), Ok(()));
}
