//! The publish pipeline: from a pending publish to a signed record, its
//! submission, the uploads the registry asks for, and the wait for a
//! terminal state.
use crate::digest::{package_log_id, package_log_id_spec};
use crate::error::{translate_log_not_found_spec, ApiError, ClientError};
use crate::record::{encode_record, record_id, record_id_spec, record_message, Entry, Envelope, Record};
use crate::signing::{key_id, key_id_spec, p256_public_key, p256_signature, public_key_of, sign_message};
use crate::sync::PackageInfo;
use crate::validator::LogKind;
use vstd::prelude::*;

verus! {

/// A pending publish: the package, the head its record must follow (none
/// for a new package, or when it is to be learned from the registry), and
/// the entries to publish.
pub struct PublishInfo {
    pub name: String,
    pub head: Option<String>,
    pub entries: Vec<Entry>,
}

impl PublishInfo {
    /// The publish starts a new package: no head, and an init entry first.
    pub open spec fn initializing_spec(self) -> bool {
        self.head is None && self.entries@.len() > 0 && self.entries@[0] is Init
    }

    /// Whether the publish starts a new package.
    pub fn initializing(&self) -> (r: bool)
        ensures
            r == self.initializing_spec(),
    {
        if self.head.is_some() || self.entries.len() == 0 {
            false
        } else {
            match &self.entries[0] {
                Entry::Init { .. } => true,
                _ => false,
            }
        }
    }
}

/// A publish whose head must first be learned by synchronizing the package.
pub struct PendingPublish {
    pub info: PublishInfo,
    pub package: PackageInfo,
}

/// A publish whose head is settled and that can be signed.
pub struct ReadyPublish {
    pub info: PublishInfo,
    pub package: PackageInfo,
}

/// How a publish begins.
pub enum PublishStart {
    /// Synchronize `package` to the latest checkpoint, then call `synced`.
    NeedsSync(PendingPublish),
    /// Ready to be signed.
    Ready(ReadyPublish),
}

/// A new package must not have a head; an existing one must.
pub open spec fn reconcile_spec(info: PublishInfo, package: PackageInfo) -> Option<ClientError> {
    if info.initializing_spec() && info.head is Some {
        Some(ClientError::CannotInitializePackage { name: package.name })
    } else if !info.initializing_spec() && info.head is None {
        Some(ClientError::MustInitializePackage { name: package.name })
    } else {
        None
    }
}

/// The package log a publish works on: the cached one, or an empty one.
pub open spec fn publish_package(info: PublishInfo, cached: Option<PackageInfo>) -> PackageInfo {
    match cached {
        Some(p) => p,
        None => PackageInfo {
            name: info.name,
            state: arbitrary(),
            head_registry_index: None,
            head_fetch_token: None,
            checkpoint: None,
        },
    }
}

impl ReadyPublish {
    fn reconcile(info: PublishInfo, package: PackageInfo) -> (r: Result<ReadyPublish, ClientError>)
        ensures
            reconcile_spec(info, package) matches Some(e) ==> r == Err::<ReadyPublish, ClientError>(e),
            reconcile_spec(info, package) is None ==> (r matches Ok(p) && p.info == info
                && p.package == package),
    {
        let initializing = info.initializing();
        if initializing && info.head.is_some() {
            return Err(ClientError::CannotInitializePackage { name: package.name });
        }
        if !initializing && info.head.is_none() {
            return Err(ClientError::MustInitializePackage { name: package.name });
        }
        Ok(ReadyPublish { info, package })
    }
}

/// Begins a publish of `info` on the cached package log (or an empty one).
/// A publish with no entries is refused; a publish to an existing package
/// with no head given must first learn the head.
pub fn begin_publish(info: PublishInfo, cached: Option<PackageInfo>) -> (r: Result<
    PublishStart,
    ClientError,
>)
    ensures
        info.entries@.len() == 0 ==> r == Err::<PublishStart, ClientError>(
            ClientError::NothingToPublish { name: info.name },
        ),
        info.entries@.len() > 0 && !info.initializing_spec() && info.head is None ==> (r matches Ok(
            PublishStart::NeedsSync(p),
        ) && p.info == info && (cached is Some ==> p.package == cached->0) && (cached is None
            ==> p.package.name == info.name && p.package.state@ == crate::validator::LogState::new_spec(
            LogKind::Package,
        ) && p.package.head_registry_index is None && p.package.checkpoint is None)),
        info.entries@.len() > 0 && (info.initializing_spec() || info.head is Some) ==> (
        reconcile_spec(info, publish_package(info, cached)) matches Some(e) ==> r == Err::<
            PublishStart,
            ClientError,
        >(e)) && (reconcile_spec(info, publish_package(info, cached)) is None ==> (r matches Ok(
            PublishStart::Ready(p),
        ) && p.info == info && p.package.name == publish_package(info, cached).name && (cached
            is Some ==> p.package == cached->0))),
{
    if info.entries.len() == 0 {
        return Err(ClientError::NothingToPublish { name: info.name });
    }
    let package = match cached {
        Some(p) => p,
        None => PackageInfo::new(info.name.clone()),
    };
    if !info.initializing() && info.head.is_none() {
        return Ok(PublishStart::NeedsSync(PendingPublish { info, package }));
    }
    match ReadyPublish::reconcile(info, package) {
        Ok(p) => Ok(PublishStart::Ready(p)),
        Err(e) => Err(e),
    }
}

impl PendingPublish {
    /// Continues a publish once its package (in `package`) is synchronized:
    /// the record follows the package's head, which must now exist.
    pub fn synced(self) -> (r: Result<ReadyPublish, ClientError>)
        ensures
            ({
                let info = PublishInfo {
                    head: match self.package.state.head {
                        Some(h) => Some(h.digest),
                        None => None,
                    },
                    ..self.info
                };
                &&& reconcile_spec(info, self.package) matches Some(e) ==> r == Err::<
                    ReadyPublish,
                    ClientError,
                >(e)
                &&& reconcile_spec(info, self.package) is None ==> (r matches Ok(p) && p.info
                    == info && p.package == self.package)
            }),
    {
        let mut info = self.info;
        info.head = match &self.package.state.head {
            Some(h) => Some(h.digest.clone()),
            None => None,
        };
        ReadyPublish::reconcile(info, self.package)
    }
}

/// A signed record ready to be submitted to the package's log.
pub struct Submission {
    pub name: String,
    pub log_id: String,
    pub envelope: Envelope,
    pub record_id: String,
}

/// The record of a publish: it follows the settled head.
pub open spec fn publish_record(info: PublishInfo, timestamp: u64) -> Record {
    Record { prev: info.head, timestamp, entries: info.entries }
}

impl ReadyPublish {
    /// Signs the record with the secret key: the record follows the head,
    /// carries `timestamp`, and names the id of the key's public key. A
    /// secret that is not a valid key is refused.
    pub fn finalize(self, secret: &Vec<u8>, timestamp: u64) -> (r: Result<Submission, ClientError>)
        ensures
            ({
                let record = publish_record(self.info, timestamp);
                let sig = p256_signature(secret@, record_message(record));
                let public = p256_public_key(secret@);
                &&& (sig is None || public is None) ==> (r matches Err(ClientError::Other(_)))
                &&& (sig is Some && public is Some) ==> (r matches Ok(s) && s.name
                    == self.package.name && s.log_id@ == package_log_id_spec(self.package.name@)
                    && s.envelope.record == record && s.envelope.key_id@ == key_id_spec(public->0)
                    && s.envelope.signature@ == sig->0 && s.record_id@ == record_id_spec(
                    s.envelope,
                ))
            }),
    {
        let record = Record { prev: self.info.head, timestamp, entries: self.info.entries };
        let message = encode_record(&record);
        let signature = match sign_message(secret.as_slice(), message.as_slice()) {
            Some(s) => s,
            None => {
                return Err(ClientError::Other(String::from_str("invalid signing key")));
            },
        };
        let public = match public_key_of(secret.as_slice()) {
            Some(p) => p,
            None => {
                return Err(ClientError::Other(String::from_str("invalid signing key")));
            },
        };
        let envelope = Envelope { record, key_id: key_id(public.as_slice()), signature };
        let id = record_id(&envelope);
        let log_id = package_log_id(self.package.name.as_str());
        Ok(Submission { name: self.package.name, log_id, envelope, record_id: id })
    }
}

/// Where the registry asks for content to be uploaded.
pub enum UploadEndpoint {
    /// An HTTP request with this method, URL and headers.
    Http { method: String, url: String, headers: Vec<(String, String)> },
    /// A transport this client does not know.
    Unknown,
}

/// Content that a record refers to and that the registry does not have.
pub struct MissingContent {
    pub digest: String,
    pub upload: Vec<UploadEndpoint>,
}

/// The state of a submitted package record.
pub enum PackageRecordState {
    /// The registry waits for content.
    Sourcing { missing_content: Vec<MissingContent> },
    /// The registry is processing the record.
    Processing,
    /// The record is in the log.
    Published,
    /// The registry refused the record.
    Rejected { reason: String },
}

/// A package record as the registry reports it.
pub struct PackageRecord {
    pub record_id: String,
    pub state: PackageRecordState,
}

/// One upload to perform: the content's digest and the HTTP request to
/// send it with.
pub struct Upload {
    pub digest: String,
    pub method: String,
    pub url: String,
    pub headers: Vec<(String, String)>,
}

/// The uploads of a submitted record, and what to report when one fails.
pub struct UploadPlan {
    pub name: String,
    pub record_id: String,
    pub uploads: Vec<Upload>,
}

/// The missing content that has an HTTP first endpoint, in order; the
/// rest is skipped.
pub open spec fn planned_uploads(missing: Seq<MissingContent>) -> Seq<MissingContent>
    decreases missing.len(),
{
    if missing.len() == 0 {
        Seq::empty()
    } else {
        let m = missing.last();
        if m.upload@.len() > 0 && m.upload@[0] is Http {
            planned_uploads(missing.drop_last()).push(m)
        } else {
            planned_uploads(missing.drop_last())
        }
    }
}

/// The missing content of a record: only a record still sourcing has any.
pub open spec fn missing_of(rec: PackageRecord) -> Seq<MissingContent> {
    match rec.state {
        PackageRecordState::Sourcing { missing_content } => missing_content@,
        _ => Seq::empty(),
    }
}

/// An upload describes missing content through its first HTTP endpoint.
pub open spec fn upload_of(u: Upload, m: MissingContent) -> bool {
    &&& u.digest == m.digest
    &&& m.upload@[0] matches UploadEndpoint::Http { method, url, headers } && u.method == method
        && u.url == url && u.headers@ == headers@
}

fn copy_headers(h: &Vec<(String, String)>) -> (r: Vec<(String, String)>)
    ensures
        r@ == h@,
{
    let mut r: Vec<(String, String)> = Vec::new();
    let mut i: usize = 0;
    while i < h.len()
        invariant
            i <= h@.len(),
            r@ == h@.take(i as int),
        decreases h@.len() - i,
    {
        r.push((h[i].0.clone(), h[i].1.clone()));
        i = i + 1;
        assert(r@ =~= h@.take(i as int));
    }
    assert(h@.take(h@.len() as int) =~= h@);
    r
}

impl Submission {
    /// Takes the registry's answer to the submission: an error naming this
    /// package's log becomes `PackageDoesNotExist`; an accepted record gives
    /// the uploads of its missing content.
    pub fn submitted(self, answer: Result<PackageRecord, ApiError>) -> (r: Result<
        UploadPlan,
        ClientError,
    >)
        ensures
            answer matches Err(e) ==> r == Err::<UploadPlan, ClientError>(
                translate_log_not_found_spec(e, seq![(self.log_id, self.name)]),
            ),
            answer matches Ok(rec) ==> r matches Ok(plan) && plan.name == self.name
                && plan.record_id == rec.record_id && plan.uploads@.len() == planned_uploads(
                missing_of(rec),
            ).len() && forall|i: int|
                #![trigger plan.uploads@[i]]
                0 <= i < plan.uploads@.len() ==> upload_of(
                    plan.uploads@[i],
                    planned_uploads(missing_of(rec))[i],
                ),
    {
        let rec = match answer {
            Err(e) => {
                let known = vec![(self.log_id, self.name)];
                assert(known@ =~= seq![(self.log_id, self.name)]);
                return Err(ClientError::translate_log_not_found(e, &known));
            },
            Ok(rec) => rec,
        };
        let mut uploads: Vec<Upload> = Vec::new();
        match &rec.state {
            PackageRecordState::Sourcing { missing_content } => {
                let mut i: usize = 0;
                while i < missing_content.len()
                    invariant
                        i <= missing_content@.len(),
                        uploads@.len() == planned_uploads(missing_content@.take(i as int)).len(),
                        forall|j: int|
                            #![trigger uploads@[j]]
                            0 <= j < uploads@.len() ==> upload_of(
                                uploads@[j],
                                planned_uploads(missing_content@.take(i as int))[j],
                            ),
                    decreases missing_content@.len() - i,
                {
                    assert(missing_content@.take(i + 1).drop_last() =~= missing_content@.take(
                        i as int,
                    ));
                    let m = &missing_content[i];
                    if m.upload.len() > 0 {
                        match &m.upload[0] {
                            UploadEndpoint::Http { method, url, headers } => {
                                uploads.push(
                                    Upload {
                                        digest: m.digest.clone(),
                                        method: method.clone(),
                                        url: url.clone(),
                                        headers: copy_headers(headers),
                                    },
                                );
                            },
                            UploadEndpoint::Unknown => {},
                        }
                    }
                    i = i + 1;
                }
                assert(missing_content@.take(missing_content@.len() as int) =~= missing_content@);
            },
            _ => {},
        }
        Ok(UploadPlan { name: self.name, record_id: rec.record_id, uploads })
    }
}

impl UploadPlan {
    /// The error for content that client storage cannot produce.
    pub fn content_not_found(&self, digest: String) -> (r: ClientError)
        ensures
            r == (ClientError::ContentNotFound { digest }),
    {
        ClientError::ContentNotFound { digest }
    }

    /// The error for a failed upload: a rejection by the registry rejects
    /// the publish; anything else is an API error.
    pub fn upload_failed(&self, e: ApiError) -> (r: ClientError)
        ensures
            e matches ApiError::Rejection { reason } ==> r == (ClientError::PublishRejected {
                name: self.name,
                record_id: self.record_id,
                reason,
            }),
            !(e is Rejection) ==> r == ClientError::Api(e),
    {
        match e {
            ApiError::Rejection { reason } => ClientError::PublishRejected {
                name: self.name.clone(),
                record_id: self.record_id.clone(),
                reason,
            },
            _ => ClientError::Api(e),
        }
    }
}

/// What a poll of a submitted record decides.
#[derive(Debug, PartialEq, Eq)]
pub enum PollOutcome {
    /// The record is still processing: wait and poll again.
    Wait,
    /// The record reached a terminal state.
    Done(Result<(), ClientError>),
}

/// Decides a poll of the record `record_id` of package `name` from the
/// state the registry reports.
pub fn poll_outcome(state: &PackageRecordState, name: &String, record_id: &String) -> (r: PollOutcome)
    ensures
        state is Processing <==> r is Wait,
        state is Published ==> r == PollOutcome::Done(Ok(())),
        state is Sourcing ==> r == PollOutcome::Done(
            Err(ClientError::PackageMissingContent),
        ),
        state matches PackageRecordState::Rejected { reason } ==> r == PollOutcome::Done(
            Err(
                ClientError::PublishRejected {
                    name: *name,
                    record_id: *record_id,
                    reason: *reason,
                },
            ),
        ),
{
    match state {
        PackageRecordState::Sourcing { .. } => PollOutcome::Done(
            Err(ClientError::PackageMissingContent),
        ),
        PackageRecordState::Processing => PollOutcome::Wait,
        PackageRecordState::Published => PollOutcome::Done(Ok(())),
        PackageRecordState::Rejected { reason } => PollOutcome::Done(
            Err(
                ClientError::PublishRejected {
                    name: name.clone(),
                    record_id: record_id.clone(),
                    reason: reason.clone(),
                },
            ),
        ),
    }
}

} // verus!
