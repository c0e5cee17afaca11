//! The error taxonomy of the client and of the log validators.
use vstd::prelude::*;

verus! {

/// Why a log validator refused a record.
#[derive(Debug, PartialEq, Eq)]
pub enum ValidationError {
    /// The record is signed by a key that the log does not bind.
    UnknownKey { key_id: String },
    /// The signature does not verify under the bound key.
    InvalidSignature,
    /// The first record of a log must have no `prev`, and any later one must
    /// point at the current head.
    PrevMismatch,
    /// The record's timestamp is earlier than the head's.
    TimestampLowerThanPrevious,
    /// The first record of a log must start with an init entry.
    FirstEntryIsNotInit,
    /// An init entry anywhere but at the start of a log.
    InitNotFirst,
    /// The entry kind is not allowed in this kind of log.
    EntryNotAllowed,
    /// A revoked key was never granted.
    KeyNotGranted { key_id: String },
    /// The version already has a release that is not yanked.
    ReleaseExists { version: String },
    /// The yanked version has no live release.
    ReleaseNotFound { version: String },
    /// The namespace is already defined or imported.
    NamespaceExists { namespace: String },
}

/// Errors of the registry API, as the transport reports them.
#[derive(Debug, PartialEq, Eq)]
pub enum ApiError {
    /// A fetch named a log that the registry does not know.
    FetchLogNotFound { log_id: String },
    /// A package operation named a log that the registry does not know.
    PackageLogNotFound { log_id: String },
    /// The registry rejected a package operation.
    Rejection { reason: String },
    /// Any other failure of the request.
    Transport { message: String },
}

/// Errors of client operations.
#[derive(Debug, PartialEq, Eq)]
pub enum ClientError {
    /// Local namespace config was not flat valid JSON.
    InvalidLocalNamespaceConfig,
    /// Local namespace config could not be read.
    NoNamespaceConfig,
    /// The current working directory could not be found.
    NoCurrentDirectory,
    /// No default registry server URL is configured.
    NoDefaultUrl,
    /// Resetting the registry's local state failed.
    ResettingRegistryLocalStateFailed,
    /// Clearing the content cache failed.
    ClearContentCacheFailed,
    /// The checkpoint signature failed verification.
    InvalidCheckpointSignature,
    /// The checkpoint is signed by a key that the operator log does not bind.
    InvalidCheckpointKeyId { key_id: String },
    /// The server did not provide operator records.
    NoOperatorRecords,
    /// The operator log failed validation.
    OperatorValidationFailed { inner: ValidationError },
    /// The package already exists and cannot be initialized.
    CannotInitializePackage { name: String },
    /// The package must be initialized before publishing.
    MustInitializePackage { name: String },
    /// There is no publish operation in progress.
    NotPublishing,
    /// The package has no records to publish.
    NothingToPublish { name: String },
    /// The package does not exist.
    PackageDoesNotExist { name: String },
    /// The package version does not exist.
    PackageVersionDoesNotExist { version: String, name: String },
    /// The package log failed validation.
    PackageValidationFailed { name: String, inner: ValidationError },
    /// Content was not found in client storage.
    ContentNotFound { digest: String },
    /// The registry sent records for a log that was not asked for.
    UnknownPackageLog { log_id: String },
    /// The package log is empty and cannot be validated.
    PackageLogEmpty { name: String },
    /// A publish operation was rejected.
    PublishRejected { name: String, record_id: String, reason: String },
    /// The package is still missing content after all content was uploaded.
    PackageMissingContent,
    /// The registry's latest checkpoint is shorter than one it gave before.
    CheckpointLogLengthRewind { from: u64, to: u64 },
    /// The registry gave a checkpoint of a known log length with other roots.
    CheckpointChangedLogRootOrMapRoot { log_length: u64 },
    /// The namespace state of a namespace could not be checked.
    NamespaceStateError { namespace: String },
    /// An error of an API operation.
    Api(ApiError),
    /// Any other failure of a client operation.
    Other(String),
}

/// The first position in `known` (pairs of log id and package name) whose
/// log id is `id`.
pub open spec fn first_known(known: Seq<(String, String)>, id: Seq<char>) -> Option<int>
    decreases known.len(),
{
    if known.len() == 0 {
        None
    } else {
        match first_known(known.drop_last(), id) {
            Some(i) => Some(i),
            None => if known.last().0@ == id {
                Some(known.len() - 1)
            } else {
                None
            },
        }
    }
}

/// Translates an API error that names the log of a known package into
/// `PackageDoesNotExist` for that package; any other error passes through.
pub open spec fn translate_log_not_found_spec(e: ApiError, known: Seq<(String, String)>) -> ClientError {
    match e {
        ApiError::FetchLogNotFound { log_id } | ApiError::PackageLogNotFound { log_id } => {
            match first_known(known, log_id@) {
                Some(i) => ClientError::PackageDoesNotExist { name: known[i].1 },
                None => ClientError::Api(e),
            }
        },
        _ => ClientError::Api(e),
    }
}

proof fn lemma_first_known_step(known: Seq<(String, String)>, id: Seq<char>, i: int)
    requires
        0 <= i < known.len(),
        first_known(known.take(i), id) is None,
    ensures
        first_known(known.take(i + 1), id) == (if known[i].0@ == id {
            Some(i)
        } else {
            None::<int>
        }),
{
    assert(known.take(i + 1).drop_last() =~= known.take(i));
}

proof fn lemma_first_known_prefix(known: Seq<(String, String)>, id: Seq<char>, k: int)
    requires
        0 <= k <= known.len(),
        first_known(known.take(k), id) is Some,
    ensures
        first_known(known, id) == first_known(known.take(k), id),
    decreases known.len() - k,
{
    if k == known.len() {
        assert(known.take(k) =~= known);
    } else {
        assert(known.drop_last().take(k) =~= known.take(k));
        lemma_first_known_prefix(known.drop_last(), id, k);
    }
}

/// Finds the first position in `known` whose log id is `id`.
fn find_known(known: &Vec<(String, String)>, id: &String) -> (r: Option<usize>)
    ensures
        r matches Some(i) ==> i < known@.len() && first_known(known@, id@) == Some(i as int),
        r is None ==> first_known(known@, id@) is None,
{
    let mut i: usize = 0;
    while i < known.len()
        invariant
            i <= known@.len(),
            first_known(known@.take(i as int), id@) is None,
        decreases known@.len() - i,
    {
        proof {
            lemma_first_known_step(known@, id@, i as int);
        }
        if known[i].0 == *id {
            proof {
                lemma_first_known_prefix(known@, id@, i + 1);
            }
            return Some(i);
        }
        i = i + 1;
    }
    assert(known@.take(known@.len() as int) =~= known@);
    None
}

impl ClientError {
    /// Translates an API error that names the log of a package in `known`
    /// (pairs of log id and package name) into `PackageDoesNotExist`.
    pub fn translate_log_not_found(e: ApiError, known: &Vec<(String, String)>) -> (r: ClientError)
        ensures
            r == translate_log_not_found_spec(e, known@),
    {
        let found = match &e {
            ApiError::FetchLogNotFound { log_id } | ApiError::PackageLogNotFound { log_id } => {
                find_known(known, log_id)
            },
            _ => None,
        };
        match found {
            Some(i) => ClientError::PackageDoesNotExist { name: known[i].1.clone() },
            None => ClientError::Api(e),
        }
    }
}

} // verus!
