use p256::ecdsa::signature::Verifier;
use warg_client::digest::package_log_id;
use warg_client::error::{ApiError, ClientError};
use warg_client::publish::{
    begin_publish, poll_outcome, MissingContent, PackageRecord, PackageRecordState, PollOutcome,
    PublishInfo, PublishStart, ReadyPublish, UploadEndpoint,
};
use warg_client::record::{encode_record, record_id, Entry};
use warg_client::signing::key_id;
use warg_client::sync::PackageInfo;
use warg_client::validator::Head;

const FOO: &str = "example:foo";

fn secret() -> Vec<u8> {
    vec![2u8; 32]
}

fn public() -> Vec<u8> {
    let key = p256::ecdsa::SigningKey::from_slice(&secret()).unwrap();
    key.verifying_key().to_sec1_bytes().to_vec()
}

fn new_package_info() -> PublishInfo {
    PublishInfo {
        name: FOO.to_string(),
        head: None,
        entries: vec![
            Entry::Init { key: public() },
            Entry::Release { version: "1.0.0".to_string(), content: "sha256:d1".to_string() },
        ],
    }
}

fn ready(start: PublishStart) -> ReadyPublish {
    match start {
        PublishStart::Ready(r) => r,
        PublishStart::NeedsSync(_) => panic!("expected a ready publish"),
    }
}

fn sourcing(record_id: &str) -> PackageRecord {
    PackageRecord {
        record_id: record_id.to_string(),
        state: PackageRecordState::Sourcing {
            missing_content: vec![
                MissingContent {
                    digest: "sha256:d1".to_string(),
                    upload: vec![UploadEndpoint::Http {
                        method: "POST".to_string(),
                        url: "https://upload.example/d1".to_string(),
                        headers: vec![("x-token".to_string(), "t".to_string())],
                    }],
                },
                MissingContent { digest: "sha256:d9".to_string(), upload: vec![UploadEndpoint::Unknown] },
                MissingContent { digest: "sha256:d8".to_string(), upload: vec![] },
            ],
        },
    }
}

#[test]
fn publish_happy_path() {
    let info = new_package_info();
    assert!(info.initializing());
    let r = ready(begin_publish(info, None).unwrap());
    let submission = r.finalize(&secret(), 42).unwrap();
    assert_eq!(submission.name, FOO);
    assert_eq!(submission.log_id, package_log_id(FOO));
    assert_eq!(submission.envelope.record.prev, None);
    assert_eq!(submission.envelope.record.timestamp, 42);
    assert_eq!(submission.envelope.key_id, key_id(&public()));
    assert_eq!(submission.record_id, record_id(&submission.envelope));
    let key = p256::ecdsa::VerifyingKey::from_sec1_bytes(&public()).unwrap();
    let sig = p256::ecdsa::Signature::from_slice(&submission.envelope.signature).unwrap();
    assert!(key.verify(&encode_record(&submission.envelope.record), &sig).is_ok());
    let plan = submission.submitted(Ok(sourcing("R"))).unwrap();
    assert_eq!(plan.record_id, "R");
    assert_eq!(plan.uploads.len(), 1);
    assert_eq!(plan.uploads[0].digest, "sha256:d1");
    assert_eq!(plan.uploads[0].method, "POST");
    assert_eq!(plan.uploads[0].url, "https://upload.example/d1");
    assert_eq!(plan.uploads[0].headers, vec![("x-token".to_string(), "t".to_string())]);
    assert_eq!(poll_outcome(&PackageRecordState::Processing, &FOO.to_string(), &"R".to_string()), PollOutcome::Wait);
    assert_eq!(
        poll_outcome(&PackageRecordState::Published, &FOO.to_string(), &"R".to_string()),
        PollOutcome::Done(Ok(()))
    );
}

#[test]
fn publish_upload_rejected() {
    let r = ready(begin_publish(new_package_info(), None).unwrap());
    let plan = r.finalize(&secret(), 42).unwrap().submitted(Ok(sourcing("R"))).unwrap();
    assert_eq!(
        plan.upload_failed(ApiError::Rejection { reason: "digest mismatch".to_string() }),
        ClientError::PublishRejected {
            name: FOO.to_string(),
            record_id: "R".to_string(),
            reason: "digest mismatch".to_string(),
        }
    );
    assert_eq!(
        plan.upload_failed(ApiError::Transport { message: "timeout".to_string() }),
        ClientError::Api(ApiError::Transport { message: "timeout".to_string() })
    );
    assert_eq!(
        plan.content_not_found("sha256:d1".to_string()),
        ClientError::ContentNotFound { digest: "sha256:d1".to_string() }
    );
}

#[test]
fn nothing_to_publish() {
    let info = PublishInfo { name: FOO.to_string(), head: None, entries: vec![] };
    assert_eq!(
        begin_publish(info, None).err().unwrap(),
        ClientError::NothingToPublish { name: FOO.to_string() }
    );
}

#[test]
fn given_head_settles_prev() {
    let mut info = new_package_info();
    info.head = Some("sha256:h".to_string());
    assert!(!info.initializing());
    let r = ready(begin_publish(info, Some(PackageInfo::new(FOO.to_string()))).unwrap());
    let submission = r.finalize(&secret(), 5).unwrap();
    assert_eq!(submission.envelope.record.prev, Some("sha256:h".to_string()));
}

#[test]
fn publish_without_head_synchronizes_first() {
    let info = PublishInfo {
        name: FOO.to_string(),
        head: None,
        entries: vec![Entry::Yank { version: "1.0.0".to_string() }],
    };
    let pending = match begin_publish(info, None).unwrap() {
        PublishStart::NeedsSync(p) => p,
        PublishStart::Ready(_) => panic!("expected a synchronization"),
    };
    assert_eq!(
        pending.synced().err().unwrap(),
        ClientError::MustInitializePackage { name: FOO.to_string() }
    );
}

#[test]
fn synchronized_head_becomes_prev() {
    let info = PublishInfo {
        name: FOO.to_string(),
        head: None,
        entries: vec![Entry::Yank { version: "1.0.0".to_string() }],
    };
    let mut pending = match begin_publish(info, None).unwrap() {
        PublishStart::NeedsSync(p) => p,
        PublishStart::Ready(_) => panic!("expected a synchronization"),
    };
    pending.package.state.head = Some(Head { digest: "sha256:head".to_string(), timestamp: 7 });
    let r = pending.synced().unwrap();
    let submission = r.finalize(&secret(), 9).unwrap();
    assert_eq!(submission.envelope.record.prev, Some("sha256:head".to_string()));
}

#[test]
fn invalid_signing_key_is_refused() {
    let r = ready(begin_publish(new_package_info(), None).unwrap());
    assert!(matches!(r.finalize(&vec![0u8; 32], 1).err().unwrap(), ClientError::Other(_)));
}

#[test]
fn submission_to_unknown_log_is_package_does_not_exist() {
    let r = ready(begin_publish(new_package_info(), None).unwrap());
    let submission = r.finalize(&secret(), 42).unwrap();
    let answer = Err(ApiError::PackageLogNotFound { log_id: package_log_id(FOO) });
    assert_eq!(
        submission.submitted(answer).err().unwrap(),
        ClientError::PackageDoesNotExist { name: FOO.to_string() }
    );
}

#[test]
fn submission_error_for_other_log_passes_through() {
    let r = ready(begin_publish(new_package_info(), None).unwrap());
    let submission = r.finalize(&secret(), 42).unwrap();
    let answer = Err(ApiError::PackageLogNotFound { log_id: package_log_id("example:bar") });
    assert_eq!(
        submission.submitted(answer).err().unwrap(),
        ClientError::Api(ApiError::PackageLogNotFound { log_id: package_log_id("example:bar") })
    );
}

#[test]
fn poll_terminal_states() {
    let name = FOO.to_string();
    let id = "R".to_string();
    assert_eq!(
        poll_outcome(&PackageRecordState::Sourcing { missing_content: vec![] }, &name, &id),
        PollOutcome::Done(Err(ClientError::PackageMissingContent))
    );
    assert_eq!(
        poll_outcome(&PackageRecordState::Rejected { reason: "bad".to_string() }, &name, &id),
        PollOutcome::Done(Err(ClientError::PublishRejected {
            name: FOO.to_string(),
            record_id: "R".to_string(),
            reason: "bad".to_string(),
        }))
    );
}

#[test]
fn translate_fetch_log_not_found() {
    let known = vec![(package_log_id(FOO), FOO.to_string())];
    assert_eq!(
        ClientError::translate_log_not_found(ApiError::FetchLogNotFound { log_id: package_log_id(FOO) }, &known),
        ClientError::PackageDoesNotExist { name: FOO.to_string() }
    );
    assert_eq!(
        ClientError::translate_log_not_found(ApiError::Rejection { reason: "x".to_string() }, &known),
        ClientError::Api(ApiError::Rejection { reason: "x".to_string() })
    );
}
