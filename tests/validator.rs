use p256::ecdsa::signature::Signer;
use warg_client::digest::{operator_log_id, package_log_id};
use warg_client::error::ValidationError;
use warg_client::record::{encode_record, record_id, Entry, Envelope, Record};
use warg_client::signing::key_id;
use warg_client::validator::{LogKind, LogState, NamespaceState};

fn secret(n: u8) -> Vec<u8> {
    vec![n; 32]
}

fn public(secret: &[u8]) -> Vec<u8> {
    let key = p256::ecdsa::SigningKey::from_slice(secret).unwrap();
    key.verifying_key().to_sec1_bytes().to_vec()
}

fn envelope(secret: &[u8], record: Record) -> Envelope {
    let key = p256::ecdsa::SigningKey::from_slice(secret).unwrap();
    let sig: p256::ecdsa::Signature = key.sign(&encode_record(&record));
    Envelope { key_id: key_id(&public(secret)), signature: sig.to_bytes().to_vec(), record }
}

fn init(secret_n: u8, timestamp: u64) -> Envelope {
    let k = secret(secret_n);
    envelope(&k, Record { prev: None, timestamp, entries: vec![Entry::Init { key: public(&k) }] })
}

fn release(version: &str, content: &str) -> Entry {
    Entry::Release { version: version.to_string(), content: content.to_string() }
}

fn package_with_release() -> (LogState, String) {
    let mut state = LogState::new(LogKind::Package);
    let first = init(3, 10);
    state.validate(&first).unwrap();
    let r1 = envelope(
        &secret(3),
        Record { prev: Some(record_id(&first)), timestamp: 11, entries: vec![release("1.0.0", "sha256:d1")] },
    );
    state.validate(&r1).unwrap();
    (state, record_id(&r1))
}

#[test]
fn first_record_binds_its_key() {
    let mut state = LogState::new(LogKind::Operator);
    let first = init(1, 10);
    assert_eq!(state.validate(&first), Ok(()));
    assert_eq!(state.head().as_ref().unwrap().digest, record_id(&first));
    assert_eq!(state.public_key(&key_id(&public(&secret(1)))), Some(&public(&secret(1))));
}

#[test]
fn failed_validation_leaves_state_unchanged() {
    let (mut state, head) = package_with_release();
    let again = envelope(
        &secret(3),
        Record { prev: Some(head.clone()), timestamp: 12, entries: vec![release("1.0.0", "sha256:d9")] },
    );
    assert_eq!(state.validate(&again), Err(ValidationError::ReleaseExists { version: "1.0.0".to_string() }));
    assert_eq!(state.head().as_ref().unwrap().digest, head);
    assert_eq!(state.release(&"1.0.0".to_string()).unwrap().content, Some("sha256:d1".to_string()));
    // a record whose second entry fails changes nothing, not even by its first entry
    let partial = envelope(
        &secret(3),
        Record {
            prev: Some(head.clone()),
            timestamp: 12,
            entries: vec![release("2.0.0", "sha256:d2"), Entry::Yank { version: "3.0.0".to_string() }],
        },
    );
    assert_eq!(state.validate(&partial), Err(ValidationError::ReleaseNotFound { version: "3.0.0".to_string() }));
    assert!(state.release(&"2.0.0".to_string()).is_none());
    assert_eq!(state.head().as_ref().unwrap().digest, head);
}

#[test]
fn yank_then_release_again() {
    let (mut state, head) = package_with_release();
    let yank = envelope(
        &secret(3),
        Record { prev: Some(head), timestamp: 12, entries: vec![Entry::Yank { version: "1.0.0".to_string() }] },
    );
    assert_eq!(state.validate(&yank), Ok(()));
    assert_eq!(state.release(&"1.0.0".to_string()).unwrap().content, None);
    let again = envelope(
        &secret(3),
        Record {
            prev: Some(record_id(&yank)),
            timestamp: 12,
            entries: vec![release("1.0.0", "sha256:d3")],
        },
    );
    assert_eq!(state.validate(&again), Ok(()));
    assert_eq!(state.release(&"1.0.0".to_string()).unwrap().content, Some("sha256:d3".to_string()));
}

#[test]
fn refusals() {
    let (mut state, head) = package_with_release();
    let wrong_prev = envelope(&secret(3), Record { prev: None, timestamp: 12, entries: vec![] });
    assert_eq!(state.validate(&wrong_prev), Err(ValidationError::PrevMismatch));
    let earlier = envelope(&secret(3), Record { prev: Some(head.clone()), timestamp: 1, entries: vec![] });
    assert_eq!(state.validate(&earlier), Err(ValidationError::TimestampLowerThanPrevious));
    let stranger = envelope(&secret(4), Record { prev: Some(head.clone()), timestamp: 12, entries: vec![] });
    assert_eq!(
        state.validate(&stranger),
        Err(ValidationError::UnknownKey { key_id: key_id(&public(&secret(4))) })
    );
    let mut forged = envelope(&secret(3), Record { prev: Some(head.clone()), timestamp: 12, entries: vec![] });
    forged.record.timestamp = 13;
    assert_eq!(state.validate(&forged), Err(ValidationError::InvalidSignature));
    let reinit = envelope(
        &secret(3),
        Record { prev: Some(head.clone()), timestamp: 12, entries: vec![Entry::Init { key: public(&secret(3)) }] },
    );
    assert_eq!(state.validate(&reinit), Err(ValidationError::InitNotFirst));
    let define = envelope(
        &secret(3),
        Record {
            prev: Some(head.clone()),
            timestamp: 12,
            entries: vec![Entry::DefineNamespace { namespace: "x".to_string() }],
        },
    );
    assert_eq!(state.validate(&define), Err(ValidationError::EntryNotAllowed));
    let revoke = envelope(
        &secret(3),
        Record {
            prev: Some(head),
            timestamp: 12,
            entries: vec![Entry::RevokeKey { key_id: "sha256:none".to_string() }],
        },
    );
    assert_eq!(state.validate(&revoke), Err(ValidationError::KeyNotGranted { key_id: "sha256:none".to_string() }));
}

#[test]
fn first_record_must_init() {
    let mut state = LogState::new(LogKind::Package);
    let k = secret(3);
    let bad = envelope(&k, Record { prev: None, timestamp: 1, entries: vec![release("1.0.0", "sha256:d1")] });
    assert_eq!(state.validate(&bad), Err(ValidationError::FirstEntryIsNotInit));
    let empty = envelope(&k, Record { prev: None, timestamp: 1, entries: vec![] });
    assert_eq!(state.validate(&empty), Err(ValidationError::FirstEntryIsNotInit));
    assert!(state.head().is_none());
}

#[test]
fn operator_namespaces() {
    let mut state = LogState::new(LogKind::Operator);
    let first = init(1, 1);
    state.validate(&first).unwrap();
    let ns = envelope(
        &secret(1),
        Record {
            prev: Some(record_id(&first)),
            timestamp: 2,
            entries: vec![
                Entry::DefineNamespace { namespace: "example".to_string() },
                Entry::ImportNamespace { namespace: "acme".to_string(), registry: "https://other.example".to_string() },
            ],
        },
    );
    state.validate(&ns).unwrap();
    assert!(matches!(state.namespace_state(&"example".to_string()), Some(NamespaceState::Defined)));
    match state.namespace_state(&"acme".to_string()) {
        Some(NamespaceState::Imported { registry }) => assert_eq!(registry, "https://other.example"),
        _ => panic!("expected an import"),
    }
    assert!(state.namespace_state(&"other".to_string()).is_none());
    let dup = envelope(
        &secret(1),
        Record {
            prev: Some(record_id(&ns)),
            timestamp: 3,
            entries: vec![Entry::DefineNamespace { namespace: "acme".to_string() }],
        },
    );
    assert_eq!(state.validate(&dup), Err(ValidationError::NamespaceExists { namespace: "acme".to_string() }));
}

#[test]
fn log_ids_are_digests() {
    let op = operator_log_id();
    assert!(op.starts_with("sha256:"));
    assert_eq!(op.len(), 7 + 64);
    assert_ne!(package_log_id("example:foo"), package_log_id("example:bar"));
    assert_eq!(package_log_id("example:foo"), package_log_id("example:foo"));
    assert_ne!(package_log_id(""), op);
    // the digest of the empty input is the well-known SHA-256 value
    assert_eq!(
        key_id(&[]),
        "sha256:e3b0c44298fc1c149afbf4c8996fb92427ae41e4649b934ca495991b7852b855"
    );
}
