use p256::ecdsa::signature::Signer;
use warg_client::checkpoint::{encode_checkpoint, Checkpoint, ConsistencyRequest, SignedCheckpoint, TimestampedCheckpoint};
use warg_client::digest::{operator_log_id, package_log_id};
use warg_client::error::{ClientError, ValidationError};
use warg_client::record::{encode_record, record_id, Entry, Envelope, Record};
use warg_client::signing::key_id;
use warg_client::sync::{
    FetchLogsResponse, OperatorInfo, PackageInfo, PublishedRecord, SyncCommit, SyncStart,
    Synchronizer,
};

fn secret(n: u8) -> Vec<u8> {
    vec![n; 32]
}

fn public(secret: &[u8]) -> Vec<u8> {
    let key = p256::ecdsa::SigningKey::from_slice(secret).unwrap();
    key.verifying_key().to_sec1_bytes().to_vec()
}

fn sign(secret: &[u8], msg: &[u8]) -> Vec<u8> {
    let key = p256::ecdsa::SigningKey::from_slice(secret).unwrap();
    let sig: p256::ecdsa::Signature = key.sign(msg);
    sig.to_bytes().to_vec()
}

fn envelope(secret: &[u8], record: Record) -> Envelope {
    let msg = encode_record(&record);
    Envelope {
        key_id: key_id(&public(secret)),
        signature: sign(secret, &msg),
        record,
    }
}

fn signed_checkpoint(secret: &[u8], log_length: u64, log_root: &str, map_root: &str) -> SignedCheckpoint {
    let content = TimestampedCheckpoint {
        checkpoint: Checkpoint {
            log_length,
            log_root: log_root.to_string(),
            map_root: map_root.to_string(),
        },
        timestamp: 100,
    };
    let msg = encode_checkpoint(&content);
    SignedCheckpoint {
        key_id: key_id(&public(secret)),
        signature: sign(secret, &msg),
        content,
    }
}

fn published(envelope: Envelope, index: u64, token: &str) -> PublishedRecord {
    PublishedRecord {
        envelope,
        registry_index: index,
        fetch_token: token.to_string(),
    }
}

const FOO: &str = "example:foo";

/// The operator log [Init(K0), DefineNamespace("example")] at indices 0 and 1.
fn operator_records() -> Vec<PublishedRecord> {
    let k0 = secret(1);
    let op0 = envelope(
        &k0,
        Record { prev: None, timestamp: 1, entries: vec![Entry::Init { key: public(&k0) }] },
    );
    let op0_id = record_id(&op0);
    let op1 = envelope(
        &k0,
        Record {
            prev: Some(op0_id),
            timestamp: 2,
            entries: vec![Entry::DefineNamespace { namespace: "example".to_string() }],
        },
    );
    vec![published(op0, 0, "op-0"), published(op1, 1, "op-1")]
}

/// The package log of `example:foo`: [Init(K1), Release(1.0.0, d1)] at
/// indices 2 and 3, then Release(1.0.1, d2) at index 4.
fn package_records() -> Vec<PublishedRecord> {
    let k1 = secret(2);
    let p2 = envelope(
        &k1,
        Record { prev: None, timestamp: 3, entries: vec![Entry::Init { key: public(&k1) }] },
    );
    let p3 = envelope(
        &k1,
        Record {
            prev: Some(record_id(&p2)),
            timestamp: 4,
            entries: vec![Entry::Release { version: "1.0.0".to_string(), content: "sha256:d1".to_string() }],
        },
    );
    let p4 = envelope(
        &k1,
        Record {
            prev: Some(record_id(&p3)),
            timestamp: 5,
            entries: vec![Entry::Release { version: "1.0.1".to_string(), content: "sha256:d2".to_string() }],
        },
    );
    vec![published(p2, 2, "foo-2"), published(p3, 3, "foo-3"), published(p4, 4, "foo-4")]
}

fn fetching(start: SyncStart) -> Synchronizer {
    match start {
        SyncStart::Fetch(s) => s,
        SyncStart::UpToDate(_) => panic!("expected a fetch"),
    }
}

fn bootstrap() -> SyncCommit {
    let cp = signed_checkpoint(&secret(1), 4, "R4", "M4");
    let s = fetching(Synchronizer::start(cp, OperatorInfo::new(), vec![PackageInfo::new(FOO.to_string())]));
    let mut pkgs = package_records();
    pkgs.truncate(2);
    let resp = FetchLogsResponse {
        operator: operator_records(),
        packages: vec![(package_log_id(FOO), pkgs)],
        more: false,
    };
    let (s, more) = s.apply(resp).unwrap();
    assert!(!more);
    let stage = s.verify().unwrap();
    let finish = stage.included(None).unwrap();
    assert!(finish.consistency.is_none());
    finish.commit
}

#[test]
fn bootstrap_from_empty_storage() {
    let cp = signed_checkpoint(&secret(1), 4, "R4", "M4");
    let s = fetching(Synchronizer::start(cp, OperatorInfo::new(), vec![PackageInfo::new(FOO.to_string())]));
    let req = s.fetch_request();
    assert_eq!(req.log_length, 4);
    assert_eq!(req.operator, None);
    assert_eq!(req.packages, vec![(package_log_id(FOO), None)]);
    assert_eq!(req.limit, None);
    let mut pkgs = package_records();
    pkgs.truncate(2);
    let resp = FetchLogsResponse {
        operator: operator_records(),
        packages: vec![(package_log_id(FOO), pkgs)],
        more: false,
    };
    let (s, more) = s.apply(resp).unwrap();
    assert!(!more);
    let stage = s.verify().unwrap();
    assert_eq!(stage.request.log_length, 4);
    assert_eq!(stage.request.leafs, vec![1, 3]);
    assert_eq!(stage.leaves[0].log_id, operator_log_id());
    assert_eq!(stage.leaves[1].log_id, package_log_id(FOO));
    let p3_id = record_id(&package_records()[1].envelope);
    assert_eq!(stage.leaves[1].record_id, p3_id);
    let commit = stage.included(None).unwrap().commit;
    assert_eq!(commit.operator.head_registry_index, Some(1));
    assert_eq!(commit.operator.head_fetch_token, Some("op-1".to_string()));
    assert_eq!(commit.packages[0].head_registry_index, Some(3));
    assert_eq!(commit.packages[0].state.head.as_ref().unwrap().digest, p3_id);
    assert_eq!(commit.updated, vec![true]);
    assert_eq!(commit.checkpoint.content.checkpoint.log_length, 4);
    assert_eq!(commit.checkpoint.content.checkpoint.log_root, "R4");
    assert_eq!(commit.packages[0].checkpoint, Some(commit.checkpoint.content.checkpoint.duplicate()));
}

#[test]
fn incremental_update_fetches_after_known_token() {
    let commit = bootstrap();
    let previous = commit.checkpoint.content.checkpoint.duplicate();
    let cp = signed_checkpoint(&secret(1), 5, "R5", "M5");
    let s = fetching(Synchronizer::start(cp, commit.operator, commit.packages));
    let req = s.fetch_request();
    assert_eq!(req.log_length, 5);
    assert_eq!(req.operator, Some("op-1".to_string()));
    assert_eq!(req.packages, vec![(package_log_id(FOO), Some("foo-3".to_string()))]);
    let mut pkgs = package_records();
    let new_record = pkgs.remove(2);
    let resp = FetchLogsResponse {
        operator: vec![],
        packages: vec![(package_log_id(FOO), vec![new_record])],
        more: false,
    };
    let (s, _) = s.apply(resp).unwrap();
    let stage = s.verify().unwrap();
    assert_eq!(stage.request.leafs, vec![1, 4]);
    let finish = stage.included(Some(previous)).unwrap();
    assert_eq!(
        finish.consistency,
        Some(ConsistencyRequest { from: 4, to: 5, from_root: "R4".to_string(), to_root: "R5".to_string() })
    );
    assert_eq!(finish.commit.packages[0].head_registry_index, Some(4));
}

#[test]
fn second_sync_to_same_checkpoint_does_nothing() {
    let commit = bootstrap();
    let cp = signed_checkpoint(&secret(1), 4, "R4", "M4");
    match Synchronizer::start(cp, commit.operator, commit.packages) {
        SyncStart::UpToDate(ps) => assert_eq!(ps.len(), 1),
        SyncStart::Fetch(_) => panic!("nothing should be fetched"),
    }
}

#[test]
fn replayed_records_are_skipped() {
    let commit = bootstrap();
    let before = commit.packages[0].state.head.as_ref().unwrap().digest.clone();
    let cp = signed_checkpoint(&secret(1), 5, "R5", "M5");
    let s = fetching(Synchronizer::start(cp, commit.operator, commit.packages));
    let mut pkgs = package_records();
    pkgs.truncate(2);
    let resp = FetchLogsResponse {
        operator: operator_records(),
        packages: vec![(package_log_id(FOO), pkgs)],
        more: true,
    };
    let (s, more) = s.apply(resp).unwrap();
    assert!(more);
    assert_eq!(s.operator.head_registry_index, Some(1));
    assert_eq!(s.entries[0].info.head_registry_index, Some(3));
    assert_eq!(s.entries[0].info.state.head.as_ref().unwrap().digest, before);
}

#[test]
fn records_for_unknown_log_are_refused() {
    let cp = signed_checkpoint(&secret(1), 4, "R4", "M4");
    let s = fetching(Synchronizer::start(cp, OperatorInfo::new(), vec![PackageInfo::new(FOO.to_string())]));
    let resp = FetchLogsResponse {
        operator: operator_records(),
        packages: vec![(package_log_id("example:bar"), vec![])],
        more: false,
    };
    assert_eq!(
        s.apply(resp).err().unwrap(),
        ClientError::UnknownPackageLog { log_id: package_log_id("example:bar") }
    );
}

#[test]
fn empty_package_log_is_refused() {
    let cp = signed_checkpoint(&secret(1), 4, "R4", "M4");
    let s = fetching(Synchronizer::start(cp, OperatorInfo::new(), vec![PackageInfo::new(FOO.to_string())]));
    let resp = FetchLogsResponse {
        operator: operator_records(),
        packages: vec![(package_log_id(FOO), vec![])],
        more: false,
    };
    assert_eq!(
        s.apply(resp).err().unwrap(),
        ClientError::PackageLogEmpty { name: FOO.to_string() }
    );
}

#[test]
fn package_missing_from_response_has_no_leaf() {
    let cp = signed_checkpoint(&secret(1), 4, "R4", "M4");
    let s = fetching(Synchronizer::start(cp, OperatorInfo::new(), vec![PackageInfo::new(FOO.to_string())]));
    let resp = FetchLogsResponse { operator: operator_records(), packages: vec![], more: false };
    let (s, _) = s.apply(resp).unwrap();
    assert_eq!(s.verify().err().unwrap(), ClientError::PackageLogEmpty { name: FOO.to_string() });
}

#[test]
fn invalid_operator_record_is_refused() {
    let cp = signed_checkpoint(&secret(1), 4, "R4", "M4");
    let s = fetching(Synchronizer::start(cp, OperatorInfo::new(), vec![PackageInfo::new(FOO.to_string())]));
    let mut ops = operator_records();
    ops.remove(0);
    let resp = FetchLogsResponse { operator: ops, packages: vec![], more: false };
    assert_eq!(
        s.apply(resp).err().unwrap(),
        ClientError::OperatorValidationFailed { inner: ValidationError::FirstEntryIsNotInit }
    );
}

#[test]
fn invalid_package_record_is_refused() {
    let cp = signed_checkpoint(&secret(1), 4, "R4", "M4");
    let s = fetching(Synchronizer::start(cp, OperatorInfo::new(), vec![PackageInfo::new(FOO.to_string())]));
    let mut pkgs = package_records();
    pkgs.remove(1);
    let resp = FetchLogsResponse {
        operator: operator_records(),
        packages: vec![(package_log_id(FOO), pkgs)],
        more: false,
    };
    assert_eq!(
        s.apply(resp).err().unwrap(),
        ClientError::PackageValidationFailed { name: FOO.to_string(), inner: ValidationError::PrevMismatch }
    );
}

#[test]
fn checkpoint_with_unknown_key_is_refused() {
    let cp = signed_checkpoint(&secret(9), 4, "R4", "M4");
    let expected = cp.key_id.clone();
    let s = fetching(Synchronizer::start(cp, OperatorInfo::new(), vec![PackageInfo::new(FOO.to_string())]));
    let mut pkgs = package_records();
    pkgs.truncate(2);
    let resp = FetchLogsResponse {
        operator: operator_records(),
        packages: vec![(package_log_id(FOO), pkgs)],
        more: false,
    };
    let (s, _) = s.apply(resp).unwrap();
    assert_eq!(s.verify().err().unwrap(), ClientError::InvalidCheckpointKeyId { key_id: expected });
}

#[test]
fn checkpoint_with_bad_signature_is_refused() {
    let mut cp = signed_checkpoint(&secret(1), 4, "R4", "M4");
    cp.content.checkpoint.log_root = "forged".to_string();
    let s = fetching(Synchronizer::start(cp, OperatorInfo::new(), vec![PackageInfo::new(FOO.to_string())]));
    let mut pkgs = package_records();
    pkgs.truncate(2);
    let resp = FetchLogsResponse {
        operator: operator_records(),
        packages: vec![(package_log_id(FOO), pkgs)],
        more: false,
    };
    let (s, _) = s.apply(resp).unwrap();
    assert_eq!(s.verify().err().unwrap(), ClientError::InvalidCheckpointSignature);
}

#[test]
fn no_operator_records_is_refused() {
    let cp = signed_checkpoint(&secret(1), 4, "R4", "M4");
    let mut op = OperatorInfo::new();
    let first = operator_records().remove(0);
    op.state.validate(&first.envelope).unwrap();
    let s = fetching(Synchronizer::start(cp, op, vec![PackageInfo::new(FOO.to_string())]));
    let mut pkgs = package_records();
    pkgs.truncate(2);
    let resp = FetchLogsResponse { operator: vec![], packages: vec![(package_log_id(FOO), pkgs)], more: false };
    let (s, _) = s.apply(resp).unwrap();
    assert_eq!(s.verify().err().unwrap(), ClientError::NoOperatorRecords);
}

#[test]
fn equivocating_checkpoint_is_refused() {
    let commit = bootstrap();
    let previous = Checkpoint { log_length: 4, log_root: "A".to_string(), map_root: "M4".to_string() };
    let cp = signed_checkpoint(&secret(1), 4, "B", "M4");
    let mut packages = commit.packages;
    packages[0].checkpoint = None;
    let s = fetching(Synchronizer::start(cp, commit.operator, packages));
    let resp = FetchLogsResponse { operator: vec![], packages: vec![], more: false };
    let (s, _) = s.apply(resp).unwrap();
    let stage = s.verify().unwrap();
    assert_eq!(
        stage.included(Some(previous)).err().unwrap(),
        ClientError::CheckpointChangedLogRootOrMapRoot { log_length: 4 }
    );
}

#[test]
fn rewound_checkpoint_is_refused() {
    let commit = bootstrap();
    let previous = Checkpoint { log_length: 10, log_root: "R10".to_string(), map_root: "M10".to_string() };
    let cp = signed_checkpoint(&secret(1), 9, "R9", "M9");
    let s = fetching(Synchronizer::start(cp, commit.operator, commit.packages));
    let resp = FetchLogsResponse { operator: vec![], packages: vec![], more: false };
    let (s, _) = s.apply(resp).unwrap();
    let stage = s.verify().unwrap();
    assert_eq!(
        stage.included(Some(previous)).err().unwrap(),
        ClientError::CheckpointLogLengthRewind { from: 10, to: 9 }
    );
}

#[test]
fn packages_at_checkpoint_are_not_updated() {
    let commit = bootstrap();
    let cp = signed_checkpoint(&secret(1), 5, "R5", "M5");
    let mut packages = commit.packages;
    packages.push(PackageInfo::new("example:bar".to_string()));
    packages[0].checkpoint = Some(cp.content.checkpoint.duplicate());
    let s = fetching(Synchronizer::start(cp, commit.operator, packages));
    assert_eq!(s.entries[0].updating, false);
    assert_eq!(s.entries[1].updating, true);
    let req = s.fetch_request();
    assert_eq!(req.packages, vec![(package_log_id("example:bar"), None)]);
}
