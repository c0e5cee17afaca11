use p256::ecdsa::signature::Signer;
use warg_client::checkpoint::Checkpoint;
use warg_client::digest::{operator_log_id, package_log_id};
use warg_client::error::ValidationError;
use warg_client::memory::{get_records_before_checkpoint, DataStoreError, MemoryDataStore, RecordStatus};
use warg_client::record::{encode_envelope, encode_record, record_id, Entry, Envelope, Record};
use warg_client::signing::key_id;
use warg_client::sync::LogLeaf;

fn secret(n: u8) -> Vec<u8> {
    vec![n; 32]
}

fn public(secret: &[u8]) -> Vec<u8> {
    let key = p256::ecdsa::SigningKey::from_slice(secret).unwrap();
    key.verifying_key().to_sec1_bytes().to_vec()
}

fn envelope(secret: &[u8], record: Record) -> Envelope {
    let key = p256::ecdsa::SigningKey::from_slice(secret).unwrap();
    let sig: p256::ecdsa::Signature = key.sign(&encode_record(&record));
    Envelope { key_id: key_id(&public(secret)), signature: sig.to_bytes().to_vec(), record }
}

fn init_record() -> Envelope {
    let k = secret(5);
    envelope(&k, Record { prev: None, timestamp: 1, entries: vec![Entry::Init { key: public(&k) }] })
}

fn checkpoint(n: u64) -> Checkpoint {
    Checkpoint { log_length: n, log_root: format!("root-{n}"), map_root: format!("map-{n}") }
}

#[test]
fn published_record_is_fetched_unchanged() {
    let mut store = MemoryDataStore::new();
    let log = package_log_id("example:foo");
    let env = init_record();
    let id = record_id(&env);
    let bytes = encode_envelope(&env);
    assert!(!store.contains_record(&log, &id));
    store.store_package_record(&log, &"example:foo".to_string(), &id, env, vec!["sha256:d1".to_string()]);
    assert_eq!(store.debug_list_package_ids(), vec!["example:foo".to_string()]);
    assert_eq!(store.get_package_record(&log, &id).unwrap().status, RecordStatus::Pending);
    assert_eq!(store.is_content_missing(&log, &id, &"sha256:d1".to_string()), Ok(true));
    assert_eq!(store.is_content_missing(&log, &id, &"sha256:d2".to_string()), Ok(false));
    assert_eq!(store.set_content_present(&log, &id, &"sha256:d1".to_string()), Ok(true));
    assert_eq!(store.set_content_present(&log, &id, &"sha256:d1".to_string()), Ok(false));
    assert_eq!(store.validate_package_record(&log, &id), Ok(()));
    let validated = store.get_package_record(&log, &id).unwrap();
    assert_eq!(validated.status, RecordStatus::Validated);
    assert!(validated.checkpoint.is_none());
    assert!(!store.has_checkpoint(&"cp-1".to_string()));
    store.store_checkpoint(
        &"cp-1".to_string(),
        checkpoint(1),
        &vec![LogLeaf { log_id: log.clone(), record_id: id.clone() }],
    );
    assert!(store.has_checkpoint(&"cp-1".to_string()));
    let published = store.get_package_record(&log, &id).unwrap();
    assert_eq!(published.status, RecordStatus::Published);
    assert_eq!(published.checkpoint, Some(checkpoint(1)));
    assert_eq!(encode_envelope(&published.envelope), bytes);
    assert_eq!(store.get_latest_checkpoint(), Some(checkpoint(1)));
    let fetched = store.get_package_records(&log, &"cp-1".to_string(), None, 10).unwrap();
    assert_eq!(fetched.len(), 1);
    assert_eq!(encode_envelope(&fetched[0]), bytes);
    let after = store.get_package_records(&log, &"cp-1".to_string(), Some(&id), 10).unwrap();
    assert_eq!(after.len(), 0);
}

#[test]
fn invalid_record_is_rejected() {
    let mut store = MemoryDataStore::new();
    let log = package_log_id("example:foo");
    let k = secret(5);
    let bad = envelope(&k, Record { prev: None, timestamp: 1, entries: vec![] });
    let id = record_id(&bad);
    store.store_package_record(&log, &"example:foo".to_string(), &id, bad, vec![]);
    assert_eq!(
        store.validate_package_record(&log, &id),
        Err(DataStoreError::Validation(ValidationError::FirstEntryIsNotInit))
    );
    assert!(matches!(store.get_package_record(&log, &id).unwrap().status, RecordStatus::Rejected(_)));
    assert_eq!(store.validate_package_record(&log, &id), Err(DataStoreError::RecordNotPending(id.clone())));
}

#[test]
fn explicit_rejection_keeps_reason() {
    let mut store = MemoryDataStore::new();
    let log = operator_log_id();
    let env = init_record();
    let id = record_id(&env);
    store.store_operator_record(&log, &id, env);
    assert_eq!(store.is_content_missing(&log, &id, &"sha256:x".to_string()), Ok(false));
    assert_eq!(store.reject_operator_record(&log, &id, "policy"), Ok(()));
    assert_eq!(store.get_operator_record(&log, &id).unwrap().status, RecordStatus::Rejected("policy".to_string()));
    assert_eq!(store.reject_operator_record(&log, &id, "again"), Err(DataStoreError::RecordNotPending(id.clone())));
    assert_eq!(store.get_package_record(&log, &id).err().unwrap(), DataStoreError::RecordNotFound(id.clone()));
}

#[test]
fn unknown_logs_and_records() {
    let mut store = MemoryDataStore::new();
    let log = operator_log_id();
    let env = init_record();
    let id = record_id(&env);
    store.store_operator_record(&log, &id, env);
    assert_eq!(
        store.validate_operator_record(&"nope".to_string(), &id),
        Err(DataStoreError::LogNotFound("nope".to_string()))
    );
    assert_eq!(
        store.validate_operator_record(&log, &"nope".to_string()),
        Err(DataStoreError::RecordNotFound("nope".to_string()))
    );
    assert_eq!(
        store.get_operator_records(&log, &"cp".to_string(), None, 5).err().unwrap(),
        DataStoreError::LogNotFound(log.clone())
    );
    assert_eq!(store.validate_operator_record(&log, &id), Ok(()));
    assert_eq!(
        store.get_operator_records(&log, &"cp".to_string(), None, 5).err().unwrap(),
        DataStoreError::CheckpointNotFound("cp".to_string())
    );
    assert_eq!(store.get_latest_checkpoint(), None);
}

#[test]
fn records_before_checkpoint_are_counted() {
    assert_eq!(get_records_before_checkpoint(&[], 3), 0);
    assert_eq!(get_records_before_checkpoint(&[0, 2, 3, 5], 3), 3);
    assert_eq!(get_records_before_checkpoint(&[4, 5], 3), 0);
}

#[test]
fn package_record_signature() {
    let store = MemoryDataStore::new();
    let log = package_log_id("example:foo");
    let env = init_record();
    assert_eq!(store.verify_package_record_signature(&log, &env), Ok(()));
    let mut forged = init_record();
    forged.record.timestamp = 2;
    assert_eq!(store.verify_package_record_signature(&log, &forged), Err(DataStoreError::SignatureVerificationFailed));
    let no_init = envelope(&secret(5), Record { prev: None, timestamp: 1, entries: vec![] });
    assert_eq!(
        store.verify_package_record_signature(&log, &no_init),
        Err(DataStoreError::UnknownKey(no_init.key_id.clone()))
    );
}
