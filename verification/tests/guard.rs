use uniffi_dart::guard::{check_contract, ContractGuard, InitError, Library};
use uniffi_dart::interface::Checksum;
use uniffi_dart::layout::WireError;
use uniffi_dart::status::{check_call_status, CallFault, CallStatus, InternalFault};
use uniffi_dart::value::{Layout, Primitive, Value};

fn table(entries: &[(&str, u16)]) -> Vec<Checksum> {
    entries
        .iter()
        .map(|(symbol, expected)| Checksum { symbol: symbol.to_string(), expected: *expected })
        .collect()
}

fn library(version: u32, entries: &[(&str, u16)]) -> Library {
    Library { contract_version: version, checksums: table(entries) }
}

#[test]
fn a_matching_library_passes_and_stays_passed() {
    let mut guard = ContractGuard::new(26, table(&[("a", 1), ("b", 2), ("c", 3)]));
    assert!(!guard.call_allowed());
    let good = library(26, &[("c", 3), ("a", 1), ("b", 2), ("d", 4)]);
    assert_eq!(guard.ensure_initialized(&good), Ok(()));
    assert!(guard.call_allowed());
    assert_eq!(guard.ensure_initialized(&good), Ok(()));
    assert!(guard.call_allowed());
    let other = library(27, &[]);
    assert_eq!(guard.ensure_initialized(&other), Ok(()));
    assert!(guard.call_allowed());
}

#[test]
fn one_mismatch_fails_the_initialization_for_good() {
    let mut guard = ContractGuard::new(26, table(&[("a", 1), ("b", 2), ("c", 3)]));
    let bad = library(26, &[("a", 1), ("b", 20), ("c", 3)]);
    assert_eq!(guard.ensure_initialized(&bad), Err(InitError::ChecksumMismatch { place: 1 }));
    assert!(!guard.call_allowed());
    let good = library(26, &[("a", 1), ("b", 2), ("c", 3)]);
    assert_eq!(guard.ensure_initialized(&good), Err(InitError::ChecksumMismatch { place: 1 }));
    assert!(!guard.call_allowed());
}

#[test]
fn the_version_is_checked_before_the_checksums() {
    let expected = table(&[("a", 1)]);
    assert_eq!(
        check_contract(26, &expected, &library(25, &[("a", 2)])),
        Err(InitError::VersionMismatch { bindings: 26, scaffolding: 25 })
    );
    assert_eq!(
        check_contract(26, &expected, &library(26, &[("a", 2)])),
        Err(InitError::ChecksumMismatch { place: 0 })
    );
    assert_eq!(
        check_contract(26, &expected, &library(26, &[])),
        Err(InitError::ChecksumMismatch { place: 0 })
    );
    assert_eq!(check_contract(26, &expected, &library(26, &[("a", 1), ("a", 2)])), Ok(()));
    assert_eq!(check_contract(26, &vec![], &library(26, &[])), Ok(()));
}

fn error_layout() -> Layout {
    Layout::Enum(vec![vec![], vec![Layout::Primitive(Primitive::String)]])
}

#[test]
fn an_error_status_throws_the_error_of_the_declared_type() {
    let error = Value::Enum(1, vec![Value::String("no such user".to_string())]);
    let mut buf = Vec::new();
    uniffi_dart::codec::write(&error, &mut buf).unwrap();
    let status = CallStatus { code: 1, error_buf: buf };
    assert_eq!(
        check_call_status(status, Some(&error_layout())),
        Err(CallFault::Expected(Value::Enum(
            1,
            vec![Value::String("no such user".to_string())]
        )))
    );
}

#[test]
fn a_panic_status_is_a_fault_with_the_message() {
    let status = CallStatus { code: 2, error_buf: b"boom".to_vec() };
    match check_call_status(status, Some(&error_layout())) {
        Err(CallFault::Panicked(message)) => assert!(message.contains("boom")),
        other => panic!("{:?}", other),
    }
    let status = CallStatus { code: 2, error_buf: b"boom".to_vec() };
    assert_eq!(check_call_status(status, None), Err(CallFault::Panicked("boom".to_string())));
    let empty = CallStatus { code: 2, error_buf: vec![] };
    assert_eq!(check_call_status(empty, None), Err(CallFault::Panicked("Rust panic".to_string())));
}

#[test]
fn a_success_passes_and_a_broken_status_is_an_internal_fault() {
    assert_eq!(check_call_status(CallStatus { code: 0, error_buf: vec![] }, None), Ok(()));
    assert_eq!(
        check_call_status(CallStatus { code: 0, error_buf: vec![1] }, Some(&error_layout())),
        Ok(())
    );
    assert_eq!(
        check_call_status(CallStatus { code: 1, error_buf: vec![] }, None),
        Err(CallFault::Internal(InternalFault::UndeclaredError))
    );
    assert_eq!(
        check_call_status(CallStatus { code: 1, error_buf: vec![0, 0, 0, 9] }, Some(&error_layout())),
        Err(CallFault::Internal(InternalFault::BadPayload(WireError::UnknownVariant)))
    );
    assert_eq!(
        check_call_status(CallStatus { code: 1, error_buf: vec![0, 0, 0, 1, 0] }, Some(&error_layout())),
        Err(CallFault::Internal(InternalFault::BadPayload(WireError::TrailingBytes)))
    );
    assert_eq!(
        check_call_status(CallStatus { code: 2, error_buf: vec![0xff] }, None),
        Err(CallFault::Internal(InternalFault::BadMessage))
    );
    assert_eq!(
        check_call_status(CallStatus { code: -3, error_buf: vec![] }, None),
        Err(CallFault::Internal(InternalFault::UnknownCode(-3)))
    );
}
