//! An in-memory registry data store: the registry side of the record
//! lifecycle (pending, rejected, validated, published), used to exercise the
//! client against a registry that keeps its state in memory.
use crate::checkpoint::Checkpoint;
use crate::error::ValidationError;
use crate::record::{copy_envelope, encode_record, envelope_bytes, record_message, Entry, Envelope};
use crate::signing::{p256_accepts, verify_signature};
use crate::sync::LogLeaf;
use crate::validator::{first_index, validate_spec, LogKind, LogState, LogView};
use indexmap::IndexMap;
use vstd::prelude::*;

verus! {

#[verifier::external_type_specification]
#[verifier::external_body]
#[verifier::reject_recursive_types(K)]
#[verifier::reject_recursive_types(V)]
#[verifier::reject_recursive_types(S)]
pub struct ExIndexMap<K, V, S>(IndexMap<K, V, S>);

/// What a map of checkpoints holds: (checkpoint id, checkpoint) pairs in
/// insertion order.
pub uninterp spec fn checkpoint_entries(m: IndexMap<String, Checkpoint>) -> Seq<(Seq<char>, Checkpoint)>;

/// Relies on `IndexMap::new`: a new map is empty.
#[verifier::external_body]
fn new_checkpoint_map() -> (r: IndexMap<String, Checkpoint>)
    ensures
        checkpoint_entries(r) == Seq::<(Seq<char>, Checkpoint)>::empty(),
{
    IndexMap::new()
}

/// Relies on `IndexMap::len`.
#[verifier::external_body]
fn checkpoint_count(m: &IndexMap<String, Checkpoint>) -> (r: usize)
    ensures
        r == checkpoint_entries(*m).len(),
{
    m.len()
}

/// Relies on `IndexMap::get_index_of`: the position of the key.
#[verifier::external_body]
fn checkpoint_position(m: &IndexMap<String, Checkpoint>, key: &String) -> (r: Option<usize>)
    ensures
        first_index(checkpoint_entries(*m), key@) matches Some(i) ==> r == Some(i as usize),
        first_index(checkpoint_entries(*m), key@) is None ==> r is None,
{
    m.get_index_of(key)
}

/// Relies on `IndexMap::get_index`: the value at a position, if in range.
#[verifier::external_body]
fn checkpoint_at(m: &IndexMap<String, Checkpoint>, i: usize) -> (r: Option<&Checkpoint>)
    ensures
        i < checkpoint_entries(*m).len() ==> r == Some(&checkpoint_entries(*m)[i as int].1),
        i >= checkpoint_entries(*m).len() ==> r is None,
{
    m.get_index(i).map(|(_, v)| v)
}

/// Relies on `IndexMap::insert_full`: an existing key keeps its place and
/// takes the new value, handing back the old one; a new key goes last.
#[verifier::external_body]
fn insert_checkpoint(m: &mut IndexMap<String, Checkpoint>, key: String, value: Checkpoint) -> (r: (
    usize,
    Option<Checkpoint>,
))
    ensures
        first_index(checkpoint_entries(*old(m)), key@) matches Some(i) ==> r.0 == i && r.1 == Some(
            checkpoint_entries(*old(m))[i].1,
        ) && checkpoint_entries(*final(m)) == checkpoint_entries(*old(m)).update(i, (key@, value)),
        first_index(checkpoint_entries(*old(m)), key@) is None ==> r.0 == checkpoint_entries(
            *old(m),
        ).len() && r.1 is None && checkpoint_entries(*final(m)) == checkpoint_entries(
            *old(m),
        ).push((key@, value)),
{
    m.insert_full(key, value)
}

/// Errors of the data store.
#[derive(Debug, PartialEq, Eq)]
pub enum DataStoreError {
    LogNotFound(String),
    RecordNotFound(String),
    RecordNotPending(String),
    CheckpointNotFound(String),
    Validation(ValidationError),
    UnknownKey(String),
    SignatureVerificationFailed,
}

/// Where a record stands in the store.
pub enum RecordState {
    /// Submitted; for a package record, the content digests still missing.
    Pending { envelope: Envelope, missing: Vec<String> },
    /// Refused, with the reason.
    Rejected { envelope: Envelope, reason: String },
    /// Validated: its position in its log, and the checkpoint that first
    /// included it, if any.
    Validated { index: usize, checkpoint_index: Option<usize> },
}

/// A record of a log, by log id and record id.
pub struct RecordSlot {
    pub log_id: String,
    pub record_id: String,
    pub kind: LogKind,
    pub state: RecordState,
}

/// A log: its validator, its validated records in order, and the
/// checkpoints that included a record of it, in order.
pub struct StoredLog {
    pub log_id: String,
    pub validator: LogState,
    pub entries: Vec<Envelope>,
    pub checkpoint_indices: Vec<usize>,
}

/// The status a record is reported with.
#[derive(Debug, PartialEq, Eq)]
pub enum RecordStatus {
    Pending,
    Rejected(String),
    Validated,
    Published,
}

/// A record as reported: status, envelope, and the checkpoint that
/// published it.
pub struct StoredRecord {
    pub status: RecordStatus,
    pub envelope: Envelope,
    pub checkpoint: Option<Checkpoint>,
}

/// An in-memory data store.
pub struct MemoryDataStore {
    pub operators: Vec<StoredLog>,
    pub packages: Vec<StoredLog>,
    pub package_ids: Vec<String>,
    pub checkpoints: IndexMap<String, Checkpoint>,
    pub records: Vec<RecordSlot>,
}

/// The first position of `s` whose key is `k`.
pub open spec fn first_match<K, A>(s: Seq<(K, A)>, k: K) -> Option<int>
    decreases s.len(),
{
    if s.len() == 0 {
        None
    } else {
        match first_match(s.drop_last(), k) {
            Some(i) => Some(i),
            None => if s.last().0 == k {
                Some(s.len() - 1)
            } else {
                None
            },
        }
    }
}

proof fn lemma_first_match_prefix<K, A>(s: Seq<(K, A)>, k: K, n: int)
    requires
        0 <= n <= s.len(),
        first_match(s.take(n), k) is Some,
    ensures
        first_match(s, k) == first_match(s.take(n), k),
    decreases s.len() - n,
{
    if n == s.len() {
        assert(s.take(n) =~= s);
    } else {
        assert(s.drop_last().take(n) =~= s.take(n));
        lemma_first_match_prefix(s.drop_last(), k, n);
    }
}

proof fn lemma_first_match_bounds<K, A>(s: Seq<(K, A)>, k: K)
    ensures
        first_match(s, k) matches Some(i) ==> 0 <= i < s.len() && s[i].0 == k,
    decreases s.len(),
{
    if s.len() > 0 {
        lemma_first_match_bounds(s.drop_last(), k);
    }
}

pub open spec fn slot_keys(rs: Seq<RecordSlot>) -> Seq<((Seq<char>, Seq<char>), ())> {
    rs.map_values(|s: RecordSlot| ((s.log_id@, s.record_id@), ()))
}

pub open spec fn log_keys(ls: Seq<StoredLog>) -> Seq<(Seq<char>, ())> {
    ls.map_values(|l: StoredLog| (l.log_id@, ()))
}

/// The position of the record `record_id` of log `log_id`.
pub open spec fn slot_index(rs: Seq<RecordSlot>, log_id: Seq<char>, record_id: Seq<char>) -> Option<int> {
    first_match(slot_keys(rs), (log_id, record_id))
}

/// The position of log `log_id`.
pub open spec fn log_index(ls: Seq<StoredLog>, log_id: Seq<char>) -> Option<int> {
    first_match(log_keys(ls), log_id)
}

/// Some record of log `log_id` is known.
pub open spec fn has_log(rs: Seq<RecordSlot>, log_id: Seq<char>) -> bool {
    exists|i: int| 0 <= i < rs.len() && (#[trigger] rs[i]).log_id@ == log_id
}

/// The error for a record that is not there: its log is unknown, or only
/// the record is.
pub open spec fn lookup_error(rs: Seq<RecordSlot>, log_id: String, record_id: String) -> DataStoreError {
    if has_log(rs, log_id@) {
        DataStoreError::RecordNotFound(record_id)
    } else {
        DataStoreError::LogNotFound(log_id)
    }
}

fn find_slot(rs: &Vec<RecordSlot>, log_id: &String, record_id: &String) -> (r: Result<
    usize,
    DataStoreError,
>)
    ensures
        r matches Ok(i) ==> i < rs@.len() && slot_index(rs@, log_id@, record_id@) == Some(i as int),
        r matches Err(e) ==> slot_index(rs@, log_id@, record_id@) is None && e == lookup_error(
            rs@,
            *log_id,
            *record_id,
        ),
{
    let ghost keys = slot_keys(rs@);
    let ghost k = (log_id@, record_id@);
    let mut i: usize = 0;
    let mut seen = false;
    while i < rs.len()
        invariant
            i <= rs@.len(),
            keys == slot_keys(rs@),
            k == (log_id@, record_id@),
            first_match(keys.take(i as int), k) is None,
            seen <==> exists|j: int| 0 <= j < i && (#[trigger] rs@[j]).log_id@ == log_id@,
        decreases rs@.len() - i,
    {
        assert(keys.take(i + 1).drop_last() =~= keys.take(i as int));
        if rs[i].log_id == *log_id {
            seen = true;
            if rs[i].record_id == *record_id {
                proof {
                    lemma_first_match_prefix(keys, k, i + 1);
                }
                return Ok(i);
            }
        }
        i = i + 1;
    }
    assert(keys.take(keys.len() as int) =~= keys);
    if seen {
        Err(DataStoreError::RecordNotFound(record_id.clone()))
    } else {
        Err(DataStoreError::LogNotFound(log_id.clone()))
    }
}

fn find_log(ls: &Vec<StoredLog>, log_id: &String) -> (r: Option<usize>)
    ensures
        r matches Some(i) ==> i < ls@.len() && log_index(ls@, log_id@) == Some(i as int),
        r is None ==> log_index(ls@, log_id@) is None,
{
    let ghost keys = log_keys(ls@);
    let mut i: usize = 0;
    while i < ls.len()
        invariant
            i <= ls@.len(),
            keys == log_keys(ls@),
            first_match(keys.take(i as int), log_id@) is None,
        decreases ls@.len() - i,
    {
        assert(keys.take(i + 1).drop_last() =~= keys.take(i as int));
        if ls[i].log_id == *log_id {
            proof {
                lemma_first_match_prefix(keys, log_id@, i + 1);
            }
            return Some(i);
        }
        i = i + 1;
    }
    assert(keys.take(keys.len() as int) =~= keys);
    None
}

/// The number of checkpoint positions at or before `checkpoint_index`.
pub open spec fn count_at_or_before(indices: Seq<usize>, checkpoint_index: usize) -> nat
    decreases indices.len(),
{
    if indices.len() == 0 {
        0
    } else {
        count_at_or_before(indices.drop_last(), checkpoint_index) + if indices.last()
            <= checkpoint_index {
            1nat
        } else {
            0nat
        }
    }
}

proof fn lemma_count_bounded(indices: Seq<usize>, checkpoint_index: usize)
    ensures
        count_at_or_before(indices, checkpoint_index) <= indices.len(),
    decreases indices.len(),
{
    if indices.len() > 0 {
        lemma_count_bounded(indices.drop_last(), checkpoint_index);
    }
}

/// How many of a log's checkpoint positions are at or before
/// `checkpoint_index`: the number of its records that checkpoint covers.
pub fn get_records_before_checkpoint(indices: &[usize], checkpoint_index: usize) -> (r: usize)
    ensures
        r == count_at_or_before(indices@, checkpoint_index),
{
    let mut n: usize = 0;
    let mut i: usize = 0;
    while i < indices.len()
        invariant
            i <= indices@.len(),
            n == count_at_or_before(indices@.take(i as int), checkpoint_index),
        decreases indices@.len() - i,
    {
        assert(indices@.take(i + 1).drop_last() =~= indices@.take(i as int));
        proof {
            lemma_count_bounded(indices@.take(i as int), checkpoint_index);
        }
        if indices[i] <= checkpoint_index {
            n = n + 1;
        }
        i = i + 1;
    }
    assert(indices@.take(indices@.len() as int) =~= indices@);
    n
}

/// Some id of `ids` is `id`.
pub open spec fn has_id(ids: Seq<String>, id: Seq<char>) -> bool {
    exists|j: int| 0 <= j < ids.len() && (#[trigger] ids[j])@ == id
}

/// The logs of one kind.
pub open spec fn logs_of(s: MemoryDataStore, kind: LogKind) -> Seq<StoredLog> {
    if kind == LogKind::Operator {
        s.operators@
    } else {
        s.packages@
    }
}

/// The validator a record of log `log_id` is checked against: the log's,
/// or an empty one for a log not seen yet.
pub open spec fn base_validator(logs: Seq<StoredLog>, log_id: Seq<char>, kind: LogKind) -> LogView {
    match log_index(logs, log_id) {
        Some(l) => logs[l].validator@,
        None => LogState::new_spec(kind),
    }
}

/// The validated records of log `log_id` so far.
pub open spec fn base_entries(logs: Seq<StoredLog>, log_id: Seq<char>) -> Seq<Envelope> {
    match log_index(logs, log_id) {
        Some(l) => logs[l].entries@,
        None => Seq::empty(),
    }
}

proof fn lemma_first_match_push<K, A>(s: Seq<(K, A)>, x: (K, A))
    requires
        first_match(s, x.0) is None,
    ensures
        first_match(s.push(x), x.0) == Some(s.len() as int),
{
    assert(s.push(x).drop_last() =~= s);
}

/// Validates `envelope` in the log `log_id` of `logs` (adding the log if
/// it is new): on success the envelope is appended to the log's records and
/// its position is returned; on failure the error and the envelope are.
fn validate_in(logs: &mut Vec<StoredLog>, kind: LogKind, log_id: &String, envelope: Envelope) -> (r:
    Result<usize, (ValidationError, Envelope)>)
    ensures
        validate_spec(base_validator(old(logs)@, log_id@, kind), envelope) matches Ok(w) ==> (r
            matches Ok(idx) && idx == base_entries(old(logs)@, log_id@).len() && (log_index(
            final(logs)@,
            log_id@,
        ) matches Some(l) && final(logs)@[l].validator@ == w && final(logs)@[l].entries@
            == base_entries(old(logs)@, log_id@).push(envelope))),
        validate_spec(base_validator(old(logs)@, log_id@, kind), envelope) matches Err(e) ==> r
            == Err::<usize, (ValidationError, Envelope)>((e, envelope)),
{
    let li = match find_log(logs, log_id) {
        Some(l) => l,
        None => {
            let fresh = StoredLog {
                log_id: log_id.clone(),
                validator: LogState::new(kind),
                entries: Vec::new(),
                checkpoint_indices: Vec::new(),
            };
            proof {
                lemma_first_match_push(log_keys(logs@), (log_id@, ()));
                assert(log_keys(logs@.push(fresh)) =~= log_keys(logs@).push((log_id@, ())));
                assert(fresh.entries@ =~= Seq::<Envelope>::empty());
            }
            logs.push(fresh);
            logs.len() - 1
        },
    };
    let ghost mid = logs@;
    assert(log_index(mid, log_id@) == Some(li as int));
    assert(mid[li as int].validator@ == base_validator(old(logs)@, log_id@, kind));
    assert(mid[li as int].entries@ == base_entries(old(logs)@, log_id@));
    let mut log = logs.remove(li);
    let checked = log.validator.validate(&envelope);
    match checked {
        Ok(()) => {
            let idx = log.entries.len();
            log.entries.push(envelope);
            logs.insert(li, log);
            assert(log_keys(logs@) =~= log_keys(mid));
            Ok(idx)
        },
        Err(e) => {
            logs.insert(li, log);
            Err((e, envelope))
        },
    }
}

impl ValidationError {
    fn message(&self) -> String {
        match self {
            ValidationError::UnknownKey { .. } => String::from_str("the record is signed by an unknown key"),
            ValidationError::InvalidSignature => String::from_str("the record signature is not valid"),
            ValidationError::PrevMismatch => String::from_str("the record does not follow the head of its log"),
            ValidationError::TimestampLowerThanPrevious => String::from_str("the record timestamp is earlier than the head's"),
            ValidationError::FirstEntryIsNotInit => String::from_str("the first record of a log must start with init"),
            ValidationError::InitNotFirst => String::from_str("init may only start a log"),
            ValidationError::EntryNotAllowed => String::from_str("the entry is not allowed in this log"),
            ValidationError::KeyNotGranted { .. } => String::from_str("the revoked key was not granted"),
            ValidationError::ReleaseExists { .. } => String::from_str("the version is already released"),
            ValidationError::ReleaseNotFound { .. } => String::from_str("the version has no release to yank"),
            ValidationError::NamespaceExists { .. } => String::from_str("the namespace is already declared"),
        }
    }
}

impl MemoryDataStore {
    /// An empty store.
    pub fn new() -> (r: MemoryDataStore)
        ensures
            r.operators@.len() == 0,
            r.packages@.len() == 0,
            r.package_ids@.len() == 0,
            r.records@.len() == 0,
            checkpoint_entries(r.checkpoints).len() == 0,
    {
        MemoryDataStore {
            operators: Vec::new(),
            packages: Vec::new(),
            package_ids: Vec::new(),
            checkpoints: new_checkpoint_map(),
            records: Vec::new(),
        }
    }

    /// Whether the store holds the record `record_id` of log `log_id`.
    pub fn contains_record(&self, log_id: &String, record_id: &String) -> (r: bool)
        ensures
            r == (slot_index(self.records@, log_id@, record_id@) is Some),
    {
        find_slot(&self.records, log_id, record_id).is_ok()
    }

    /// Stores a submitted operator record as pending.
    pub fn store_operator_record(&mut self, log_id: &String, record_id: &String, record: Envelope)
        requires
            slot_index(old(self).records@, log_id@, record_id@) is None,
        ensures
            final(self).records@.len() == old(self).records@.len() + 1,
            final(self).records@.drop_last() == old(self).records@,
            final(self).records@.last().log_id == *log_id,
            final(self).records@.last().record_id == *record_id,
            final(self).records@.last().kind == LogKind::Operator,
            final(self).records@.last().state matches RecordState::Pending { envelope, missing }
                && envelope == record && missing@.len() == 0,
            final(self).operators == old(self).operators,
            final(self).packages == old(self).packages,
            final(self).package_ids == old(self).package_ids,
            final(self).checkpoints == old(self).checkpoints,
    {
        self.records.push(
            RecordSlot {
                log_id: log_id.clone(),
                record_id: record_id.clone(),
                kind: LogKind::Operator,
                state: RecordState::Pending { envelope: record, missing: Vec::new() },
            },
        );
    }

    /// Stores a submitted package record as pending, with the content
    /// digests it is missing, and records the package id.
    pub fn store_package_record(
        &mut self,
        log_id: &String,
        package_id: &String,
        record_id: &String,
        record: Envelope,
        missing: Vec<String>,
    )
        requires
            slot_index(old(self).records@, log_id@, record_id@) is None,
        ensures
            final(self).records@ == old(self).records@.push(
                RecordSlot {
                    log_id: *log_id,
                    record_id: *record_id,
                    kind: LogKind::Package,
                    state: RecordState::Pending { envelope: record, missing },
                },
            ),
            has_id(old(self).package_ids@, package_id@) ==> final(self).package_ids == old(
                self,
            ).package_ids,
            !has_id(old(self).package_ids@, package_id@) ==> final(self).package_ids@ == old(
                self,
            ).package_ids@.push(*package_id),
            final(self).operators == old(self).operators,
            final(self).packages == old(self).packages,
            final(self).checkpoints == old(self).checkpoints,
    {
        self.records.push(
            RecordSlot {
                log_id: log_id.clone(),
                record_id: record_id.clone(),
                kind: LogKind::Package,
                state: RecordState::Pending { envelope: record, missing },
            },
        );
        let mut i: usize = 0;
        let mut found = false;
        while i < self.package_ids.len()
            invariant
                i <= self.package_ids@.len(),
                found <==> exists|j: int| 0 <= j < i && (#[trigger] self.package_ids@[j])@ == package_id@,
            decreases self.package_ids@.len() - i,
        {
            if self.package_ids[i] == *package_id {
                found = true;
            }
            i = i + 1;
        }
        if !found {
            self.package_ids.push(package_id.clone());
        }
    }

    fn reject_record(&mut self, kind: LogKind, log_id: &String, record_id: &String, reason: String) -> (r:
        Result<(), DataStoreError>)
        ensures
            final(self).operators == old(self).operators,
            final(self).packages == old(self).packages,
            final(self).package_ids == old(self).package_ids,
            final(self).checkpoints == old(self).checkpoints,
            slot_index(old(self).records@, log_id@, record_id@) matches Some(i) ==> 0 <= i < old(
                self,
            ).records@.len(),
            slot_index(old(self).records@, log_id@, record_id@) is None ==> r == Err::<
                (),
                DataStoreError,
            >(lookup_error(old(self).records@, *log_id, *record_id)) && final(self).records
                == old(self).records,
            slot_index(old(self).records@, log_id@, record_id@) matches Some(i) ==> ({
                let slot = old(self).records@[i];
                &&& (slot.kind == kind && slot.state is Pending) ==> r is Ok
                    && final(self).records@ == old(self).records@.update(
                    i,
                    RecordSlot {
                        state: RecordState::Rejected {
                            envelope: slot.state->Pending_envelope,
                            reason,
                        },
                        ..slot
                    },
                )
                &&& !(slot.kind == kind && slot.state is Pending) ==> r == Err::<
                    (),
                    DataStoreError,
                >(DataStoreError::RecordNotPending(*record_id)) && final(self).records@ == old(
                    self,
                ).records@
            }),
    {
        let i = match find_slot(&self.records, log_id, record_id) {
            Ok(i) => i,
            Err(e) => {
                return Err(e);
            },
        };
        let ghost before = self.records@;
        let RecordSlot { log_id: l, record_id: id, kind: k, state } = self.records.remove(i);
        let (state, result) = match state {
            RecordState::Pending { envelope, missing } => {
                if k == kind {
                    (RecordState::Rejected { envelope, reason }, Ok(()))
                } else {
                    (
                        RecordState::Pending { envelope, missing },
                        Err(DataStoreError::RecordNotPending(record_id.clone())),
                    )
                }
            },
            other => (other, Err(DataStoreError::RecordNotPending(record_id.clone()))),
        };
        self.records.insert(i, RecordSlot { log_id: l, record_id: id, kind: k, state });
        assert(self.records@ =~= before.update(i as int, self.records@[i as int]));
        result
    }

    /// Marks a pending operator record as rejected for `reason`.
    pub fn reject_operator_record(&mut self, log_id: &String, record_id: &String, reason: &str) -> (r:
        Result<(), DataStoreError>)
        ensures
            slot_index(old(self).records@, log_id@, record_id@) is None ==> r == Err::<
                (),
                DataStoreError,
            >(lookup_error(old(self).records@, *log_id, *record_id)),
            slot_index(old(self).records@, log_id@, record_id@) matches Some(i) ==> ({
                let slot = old(self).records@[i];
                &&& (slot.kind == LogKind::Operator && slot.state is Pending) ==> (r is Ok
                    && (final(self).records@[i].state matches RecordState::Rejected {
                    envelope,
                    reason: why,
                } && envelope == slot.state->Pending_envelope && why@ == reason@))
                &&& !(slot.kind == LogKind::Operator && slot.state is Pending) ==> r == Err::<
                    (),
                    DataStoreError,
                >(DataStoreError::RecordNotPending(*record_id))
            }),
    {
        self.reject_record(LogKind::Operator, log_id, record_id, reason.to_owned())
    }

    /// Marks a pending package record as rejected for `reason`.
    pub fn reject_package_record(&mut self, log_id: &String, record_id: &String, reason: &str) -> (r:
        Result<(), DataStoreError>)
        ensures
            slot_index(old(self).records@, log_id@, record_id@) is None ==> r == Err::<
                (),
                DataStoreError,
            >(lookup_error(old(self).records@, *log_id, *record_id)),
            slot_index(old(self).records@, log_id@, record_id@) matches Some(i) ==> ({
                let slot = old(self).records@[i];
                &&& (slot.kind == LogKind::Package && slot.state is Pending) ==> (r is Ok
                    && (final(self).records@[i].state matches RecordState::Rejected {
                    envelope,
                    reason: why,
                } && envelope == slot.state->Pending_envelope && why@ == reason@))
                &&& !(slot.kind == LogKind::Package && slot.state is Pending) ==> r == Err::<
                    (),
                    DataStoreError,
                >(DataStoreError::RecordNotPending(*record_id))
            }),
    {
        self.reject_record(LogKind::Package, log_id, record_id, reason.to_owned())
    }

    fn validate_record(&mut self, kind: LogKind, log_id: &String, record_id: &String) -> (r: Result<
        (),
        DataStoreError,
    >)
        ensures
            validated_as(*old(self), *final(self), kind, *log_id, *record_id, r),
    {
        proof {
            reveal(validated_as);
        }
        let i = match find_slot(&self.records, log_id, record_id) {
            Ok(i) => i,
            Err(e) => {
                return Err(e);
            },
        };
        let ghost before = self.records@;
        let RecordSlot { log_id: l, record_id: id, kind: k, state } = self.records.remove(i);
        match state {
            RecordState::Pending { envelope, missing } => {
                if k != kind {
                    self.records.insert(
                        i,
                        RecordSlot {
                            log_id: l,
                            record_id: id,
                            kind: k,
                            state: RecordState::Pending { envelope, missing },
                        },
                    );
                    assert(self.records@ =~= before);
                    return Err(DataStoreError::RecordNotPending(record_id.clone()));
                }
                let outcome = if kind == LogKind::Operator {
                    validate_in(&mut self.operators, kind, log_id, envelope)
                } else {
                    validate_in(&mut self.packages, kind, log_id, envelope)
                };
                match outcome {
                    Ok(idx) => {
                        self.records.insert(
                            i,
                            RecordSlot {
                                log_id: l,
                                record_id: id,
                                kind: k,
                                state: RecordState::Validated { index: idx, checkpoint_index: None },
                            },
                        );
                        assert(self.records@ =~= before.update(i as int, self.records@[i as int]));
                        Ok(())
                    },
                    Err((e, envelope)) => {
                        let reason = e.message();
                        self.records.insert(
                            i,
                            RecordSlot {
                                log_id: l,
                                record_id: id,
                                kind: k,
                                state: RecordState::Rejected { envelope, reason },
                            },
                        );
                        assert(self.records@ =~= before.update(i as int, self.records@[i as int]));
                        Err(DataStoreError::Validation(e))
                    },
                }
            },
            other => {
                self.records.insert(i, RecordSlot { log_id: l, record_id: id, kind: k, state: other });
                assert(self.records@ =~= before);
                Err(DataStoreError::RecordNotPending(record_id.clone()))
            },
        }
    }

    /// Validates a pending operator record against its log: it becomes the
    /// next record of the log, or is rejected with the validation error.
    pub fn validate_operator_record(&mut self, log_id: &String, record_id: &String) -> (r: Result<
        (),
        DataStoreError,
    >)
        ensures
            validated_as(*old(self), *final(self), LogKind::Operator, *log_id, *record_id, r),
    {
        self.validate_record(LogKind::Operator, log_id, record_id)
    }

    /// Validates a pending package record against its log: it becomes the
    /// next record of the log, or is rejected with the validation error.
    pub fn validate_package_record(&mut self, log_id: &String, record_id: &String) -> (r: Result<
        (),
        DataStoreError,
    >)
        ensures
            validated_as(*old(self), *final(self), LogKind::Package, *log_id, *record_id, r),
    {
        self.validate_record(LogKind::Package, log_id, record_id)
    }
}

/// What validating the record `record_id` of log `log_id` does: an unknown
/// record or one that is not a pending record of this kind of log is an
/// error that changes nothing; a pending one is checked against the log's
/// validator and either becomes the log's next record, validated and not yet
/// in a checkpoint, or is rejected with the validation error.
#[verifier::opaque]
pub open spec fn validated_as(
    s: MemoryDataStore,
    t: MemoryDataStore,
    kind: LogKind,
    log_id: String,
    record_id: String,
    r: Result<(), DataStoreError>,
) -> bool {
    &&& t.package_ids == s.package_ids
    &&& t.checkpoints == s.checkpoints
    &&& logs_of(t, other_kind(kind)) == logs_of(s, other_kind(kind))
    &&& match slot_index(s.records@, log_id@, record_id@) {
        None => r == Err::<(), DataStoreError>(lookup_error(s.records@, log_id, record_id))
            && t.records == s.records && logs_of(t, kind) == logs_of(s, kind),
        Some(i) => {
            let slot = s.records@[i];
            let logs = logs_of(s, kind);
            if !(slot.kind == kind && slot.state is Pending) {
                &&& r == Err::<(), DataStoreError>(DataStoreError::RecordNotPending(record_id))
                &&& t.records@ == s.records@
                &&& logs_of(t, kind) == logs
            } else {
                let env = slot.state->Pending_envelope;
                match validate_spec(base_validator(logs, log_id@, kind), env) {
                    Ok(w) => {
                        &&& r is Ok
                        &&& t.records@ == s.records@.update(
                            i,
                            RecordSlot {
                                state: RecordState::Validated {
                                    index: base_entries(logs, log_id@).len() as usize,
                                    checkpoint_index: None,
                                },
                                ..slot
                            },
                        )
                        &&& log_index(logs_of(t, kind), log_id@) matches Some(l)
                            && logs_of(t, kind)[l].validator@ == w && logs_of(t, kind)[l].entries@
                            == base_entries(logs, log_id@).push(env)
                    },
                    Err(e) => {
                        &&& r == Err::<(), DataStoreError>(DataStoreError::Validation(e))
                        &&& t.records@.len() == s.records@.len()
                        &&& forall|j: int|
                            0 <= j < s.records@.len() && j != i ==> t.records@[j] == s.records@[j]
                        &&& t.records@[i].log_id == slot.log_id
                        &&& t.records@[i].record_id == slot.record_id
                        &&& t.records@[i].kind == slot.kind
                        &&& t.records@[i].state matches RecordState::Rejected { envelope, .. }
                            && envelope == env
                    },
                }
            }
        },
    }
}

pub open spec fn other_kind(kind: LogKind) -> LogKind {
    if kind == LogKind::Operator {
        LogKind::Package
    } else {
        LogKind::Operator
    }
}

fn contains_id(ids: &Vec<String>, id: &String) -> (r: bool)
    ensures
        r == has_id(ids@, id@),
{
    let mut k: usize = 0;
    while k < ids.len()
        invariant
            k <= ids@.len(),
            forall|j: int| 0 <= j < k ==> (#[trigger] ids@[j])@ != id@,
        decreases ids@.len() - k,
    {
        if ids[k] == *id {
            return true;
        }
        k = k + 1;
    }
    false
}

/// The ids without those equal to `id`.
pub open spec fn without(ids: Seq<String>, id: Seq<char>) -> Seq<String>
    decreases ids.len(),
{
    if ids.len() == 0 {
        ids
    } else if ids.last()@ == id {
        without(ids.drop_last(), id)
    } else {
        without(ids.drop_last(), id).push(ids.last())
    }
}

/// How a record is reported: a pending or rejected record of this kind
/// with its envelope; a validated one with the envelope its log holds at its
/// position, as published when the checkpoint that included it is known.
/// Envelopes are reported by their encoding.
#[verifier::opaque]
pub open spec fn reported_as(
    s: MemoryDataStore,
    kind: LogKind,
    log_id: String,
    record_id: String,
    r: Result<StoredRecord, DataStoreError>,
) -> bool {
    match slot_index(s.records@, log_id@, record_id@) {
        None => r == Err::<StoredRecord, DataStoreError>(lookup_error(s.records@, log_id, record_id)),
        Some(i) => {
            let slot = s.records@[i];
            match slot.state {
                RecordState::Pending { envelope, .. } => if slot.kind == kind {
                    r matches Ok(rec) && rec.status == RecordStatus::Pending && envelope_bytes(
                        rec.envelope,
                    ) == envelope_bytes(envelope) && rec.checkpoint is None
                } else {
                    r == Err::<StoredRecord, DataStoreError>(
                        DataStoreError::RecordNotFound(record_id),
                    )
                },
                RecordState::Rejected { envelope, reason } => if slot.kind == kind {
                    r matches Ok(rec) && rec.status == RecordStatus::Rejected(reason)
                        && envelope_bytes(rec.envelope) == envelope_bytes(envelope)
                        && rec.checkpoint is None
                } else {
                    r == Err::<StoredRecord, DataStoreError>(
                        DataStoreError::RecordNotFound(record_id),
                    )
                },
                RecordState::Validated { index, checkpoint_index } => {
                    let logs = logs_of(s, kind);
                    match log_index(logs, log_id@) {
                        None => r == Err::<StoredRecord, DataStoreError>(
                            DataStoreError::LogNotFound(log_id),
                        ),
                        Some(l) => if index >= logs[l].entries@.len() {
                            r == Err::<StoredRecord, DataStoreError>(
                                DataStoreError::RecordNotFound(record_id),
                            )
                        } else {
                            let cps = checkpoint_entries(s.checkpoints);
                            let cp = match checkpoint_index {
                                Some(c) => if c < cps.len() {
                                    Some(cps[c as int].1)
                                } else {
                                    None
                                },
                                None => None,
                            };
                            r matches Ok(rec) && rec.status == (if cp is Some {
                                RecordStatus::Published
                            } else {
                                RecordStatus::Validated
                            }) && envelope_bytes(rec.envelope) == envelope_bytes(
                                logs[l].entries@[index as int],
                            ) && rec.checkpoint == cp
                        },
                    }
                },
            }
        },
    }
}

impl MemoryDataStore {
    /// Whether the pending record still misses the content `digest`
    /// (operator records miss none).
    pub fn is_content_missing(&self, log_id: &String, record_id: &String, digest: &String) -> (r:
        Result<bool, DataStoreError>)
        ensures
            slot_index(self.records@, log_id@, record_id@) is None ==> r == Err::<
                bool,
                DataStoreError,
            >(lookup_error(self.records@, *log_id, *record_id)),
            slot_index(self.records@, log_id@, record_id@) matches Some(i) ==> (match self.records@[i].state {
                RecordState::Pending { missing, .. } => r == Ok::<bool, DataStoreError>(
                    self.records@[i].kind == LogKind::Package && has_id(missing@, digest@),
                ),
                _ => r == Err::<bool, DataStoreError>(DataStoreError::RecordNotPending(*record_id)),
            }),
    {
        let i = match find_slot(&self.records, log_id, record_id) {
            Ok(i) => i,
            Err(e) => {
                return Err(e);
            },
        };
        match &self.records[i].state {
            RecordState::Pending { missing, .. } => {
                if self.records[i].kind == LogKind::Operator {
                    return Ok(false);
                }
                Ok(contains_id(missing, digest))
            },
            _ => Err(DataStoreError::RecordNotPending(record_id.clone())),
        }
    }

    /// Marks the content `digest` of a pending package record as present,
    /// and says whether that was the last missing content (false when none
    /// was missing, and for operator records).
    pub fn set_content_present(&mut self, log_id: &String, record_id: &String, digest: &String) -> (r:
        Result<bool, DataStoreError>)
        ensures
            final(self).operators == old(self).operators,
            final(self).packages == old(self).packages,
            final(self).package_ids == old(self).package_ids,
            final(self).checkpoints == old(self).checkpoints,
            final(self).records@.len() == old(self).records@.len(),
            slot_index(old(self).records@, log_id@, record_id@) is None ==> r == Err::<
                bool,
                DataStoreError,
            >(lookup_error(old(self).records@, *log_id, *record_id)) && final(self).records@
                == old(self).records@,
            slot_index(old(self).records@, log_id@, record_id@) matches Some(i) ==> (match old(
                self,
            ).records@[i].state {
                RecordState::Pending { envelope, missing } => if old(self).records@[i].kind
                    == LogKind::Operator || missing@.len() == 0 {
                    r == Ok::<bool, DataStoreError>(false) && final(self).records@ == old(
                        self,
                    ).records@
                } else {
                    r == Ok::<bool, DataStoreError>(without(missing@, digest@).len() == 0) && (
                    final(self).records@[i].state matches RecordState::Pending {
                        envelope: e2,
                        missing: m2,
                    } && e2 == envelope && m2@ == without(missing@, digest@)) && forall|j: int|
                        0 <= j < old(self).records@.len() && j != i ==> final(self).records@[j]
                            == old(self).records@[j]
                },
                _ => r == Err::<bool, DataStoreError>(DataStoreError::RecordNotPending(*record_id))
                    && final(self).records@ == old(self).records@,
            }),
    {
        let i = match find_slot(&self.records, log_id, record_id) {
            Ok(i) => i,
            Err(e) => {
                return Err(e);
            },
        };
        let ghost before = self.records@;
        let RecordSlot { log_id: l, record_id: id, kind: k, state } = self.records.remove(i);
        match state {
            RecordState::Pending { envelope, missing } => {
                if k == LogKind::Operator || missing.len() == 0 {
                    self.records.insert(
                        i,
                        RecordSlot {
                            log_id: l,
                            record_id: id,
                            kind: k,
                            state: RecordState::Pending { envelope, missing },
                        },
                    );
                    assert(self.records@ =~= before);
                    return Ok(false);
                }
                let mut kept: Vec<String> = Vec::new();
                let mut j: usize = 0;
                while j < missing.len()
                    invariant
                        j <= missing@.len(),
                        kept@ == without(missing@.take(j as int), digest@),
                    decreases missing@.len() - j,
                {
                    assert(missing@.take(j + 1).drop_last() =~= missing@.take(j as int));
                    if missing[j] != *digest {
                        kept.push(missing[j].clone());
                    }
                    j = j + 1;
                }
                assert(missing@.take(missing@.len() as int) =~= missing@);
                let last = kept.len() == 0;
                self.records.insert(
                    i,
                    RecordSlot {
                        log_id: l,
                        record_id: id,
                        kind: k,
                        state: RecordState::Pending { envelope, missing: kept },
                    },
                );
                Ok(last)
            },
            other => {
                self.records.insert(i, RecordSlot { log_id: l, record_id: id, kind: k, state: other });
                assert(self.records@ =~= before);
                Err(DataStoreError::RecordNotPending(record_id.clone()))
            },
        }
    }

    fn get_record(&self, kind: LogKind, log_id: &String, record_id: &String) -> (r: Result<
        StoredRecord,
        DataStoreError,
    >)
        ensures
            reported_as(*self, kind, *log_id, *record_id, r),
    {
        proof {
            reveal(reported_as);
        }
        let i = match find_slot(&self.records, log_id, record_id) {
            Ok(i) => i,
            Err(e) => {
                return Err(e);
            },
        };
        let slot = &self.records[i];
        match &slot.state {
            RecordState::Pending { envelope, .. } => {
                if slot.kind != kind {
                    return Err(DataStoreError::RecordNotFound(record_id.clone()));
                }
                Ok(StoredRecord { status: RecordStatus::Pending, envelope: copy_envelope(envelope), checkpoint: None })
            },
            RecordState::Rejected { envelope, reason } => {
                if slot.kind != kind {
                    return Err(DataStoreError::RecordNotFound(record_id.clone()));
                }
                Ok(
                    StoredRecord {
                        status: RecordStatus::Rejected(reason.clone()),
                        envelope: copy_envelope(envelope),
                        checkpoint: None,
                    },
                )
            },
            RecordState::Validated { index, checkpoint_index } => {
                let logs = if kind == LogKind::Operator {
                    &self.operators
                } else {
                    &self.packages
                };
                let l = match find_log(logs, log_id) {
                    Some(l) => l,
                    None => {
                        return Err(DataStoreError::LogNotFound(log_id.clone()));
                    },
                };
                if *index >= logs[l].entries.len() {
                    return Err(DataStoreError::RecordNotFound(record_id.clone()));
                }
                let checkpoint = match checkpoint_index {
                    Some(c) => match checkpoint_at(&self.checkpoints, *c) {
                        Some(cp) => Some(cp.duplicate()),
                        None => None,
                    },
                    None => None,
                };
                let status = if checkpoint.is_some() {
                    RecordStatus::Published
                } else {
                    RecordStatus::Validated
                };
                Ok(StoredRecord { status, envelope: copy_envelope(&logs[l].entries[*index]), checkpoint })
            },
        }
    }

    /// Reports an operator record.
    pub fn get_operator_record(&self, log_id: &String, record_id: &String) -> (r: Result<
        StoredRecord,
        DataStoreError,
    >)
        ensures
            reported_as(*self, LogKind::Operator, *log_id, *record_id, r),
    {
        self.get_record(LogKind::Operator, log_id, record_id)
    }

    /// Reports a package record.
    pub fn get_package_record(&self, log_id: &String, record_id: &String) -> (r: Result<
        StoredRecord,
        DataStoreError,
    >)
        ensures
            reported_as(*self, LogKind::Package, *log_id, *record_id, r),
    {
        self.get_record(LogKind::Package, log_id, record_id)
    }

    /// The latest stored checkpoint, if any.
    pub fn get_latest_checkpoint(&self) -> (r: Option<Checkpoint>)
        ensures
            checkpoint_entries(self.checkpoints).len() == 0 ==> r is None,
            checkpoint_entries(self.checkpoints).len() > 0 ==> r == Some(
                checkpoint_entries(self.checkpoints).last().1,
            ),
    {
        let n = checkpoint_count(&self.checkpoints);
        if n == 0 {
            return None;
        }
        match checkpoint_at(&self.checkpoints, n - 1) {
            Some(cp) => Some(cp.duplicate()),
            None => None,
        }
    }

    /// The ids of the packages whose records were stored.
    pub fn debug_list_package_ids(&self) -> (r: Vec<String>)
        ensures
            r@ == self.package_ids@,
    {
        let mut r: Vec<String> = Vec::new();
        let mut i: usize = 0;
        while i < self.package_ids.len()
            invariant
                i <= self.package_ids@.len(),
                r@ == self.package_ids@.take(i as int),
            decreases self.package_ids@.len() - i,
        {
            r.push(self.package_ids[i].clone());
            i = i + 1;
            assert(r@ =~= self.package_ids@.take(i as int));
        }
        assert(self.package_ids@.take(self.package_ids@.len() as int) =~= self.package_ids@);
        r
    }
}

/// A record keeps its place, ids and kind; a record that is not
/// validated keeps its state; a validated one keeps its position in its log
/// and either keeps its checkpoint or takes `index`.
pub open spec fn slot_marked(a: RecordSlot, b: RecordSlot, index: usize) -> bool {
    &&& b.log_id == a.log_id
    &&& b.record_id == a.record_id
    &&& b.kind == a.kind
    &&& match a.state {
        RecordState::Validated { index: ix, checkpoint_index: c } => b.state matches RecordState::Validated {
            index: ix2,
            checkpoint_index: c2,
        } && ix2 == ix && (c2 == c || c2 == Some(index)),
        _ => b.state == a.state,
    }
}

/// Logs keep their ids, validators and records.
pub open spec fn logs_kept(a: Seq<StoredLog>, b: Seq<StoredLog>) -> bool {
    &&& b.len() == a.len()
    &&& forall|l: int|
        #![trigger b[l]]
        0 <= l < a.len() ==> b[l].log_id == a[l].log_id && b[l].validator == a[l].validator
            && b[l].entries == a[l].entries
}

/// The participant's record, if it was validated, is now in the checkpoint
/// at `index`.
pub open spec fn participant_marked(
    old_records: Seq<RecordSlot>,
    records: Seq<RecordSlot>,
    leaf: LogLeaf,
    index: usize,
) -> bool {
    match slot_index(old_records, leaf.log_id@, leaf.record_id@) {
        Some(k) => old_records[k].state is Validated ==> (records[k].state matches RecordState::Validated {
            checkpoint_index,
            ..
        } && checkpoint_index == Some(index)),
        None => true,
    }
}

/// What storing a checkpoint does: it goes last among the checkpoints;
/// every record keeps its place, ids, kind and position, and a validated
/// participant is now included in it; logs keep their records.
#[verifier::opaque]
pub open spec fn checkpointed_as(
    s: MemoryDataStore,
    t: MemoryDataStore,
    checkpoint_id: String,
    checkpoint: Checkpoint,
    participants: Seq<LogLeaf>,
) -> bool {
    let index = checkpoint_entries(s.checkpoints).len() as usize;
    &&& checkpoint_entries(s.checkpoints).len() <= usize::MAX
    &&& checkpoint_entries(t.checkpoints) == checkpoint_entries(s.checkpoints).push(
        (checkpoint_id@, checkpoint),
    )
    &&& t.records@.len() == s.records@.len()
    &&& forall|k: int|
        #![trigger t.records@[k]]
        0 <= k < s.records@.len() ==> slot_marked(s.records@[k], t.records@[k], index)
    &&& forall|j: int|
        0 <= j < participants.len() ==> participant_marked(
            s.records@,
            t.records@,
            #[trigger] participants[j],
            index,
        )
    &&& logs_kept(s.operators@, t.operators@)
    &&& logs_kept(s.packages@, t.packages@)
    &&& t.package_ids == s.package_ids
}

fn push_checkpoint_index(logs: &mut Vec<StoredLog>, l: usize, index: usize)
    requires
        l < old(logs)@.len(),
    ensures
        logs_kept(old(logs)@, final(logs)@),
        log_keys(final(logs)@) == log_keys(old(logs)@),
{
    let mut log = logs.remove(l);
    log.checkpoint_indices.push(index);
    logs.insert(l, log);
    assert(log_keys(logs@) =~= log_keys(old(logs)@));
}

impl MemoryDataStore {
    /// Whether a checkpoint is stored under `checkpoint_id`.
    pub fn has_checkpoint(&self, checkpoint_id: &String) -> (r: bool)
        ensures
            r == (first_index(checkpoint_entries(self.checkpoints), checkpoint_id@) is Some),
    {
        checkpoint_position(&self.checkpoints, checkpoint_id).is_some()
    }

    /// Stores a checkpoint under a new id, at the next position, and marks
    /// the participating records (each log's head) as included in it.
    pub fn store_checkpoint(&mut self, checkpoint_id: &String, checkpoint: Checkpoint, participants: &Vec<LogLeaf>)
        requires
            first_index(checkpoint_entries(old(self).checkpoints), checkpoint_id@) is None,
        ensures
            checkpointed_as(*old(self), *final(self), *checkpoint_id, checkpoint, participants@),
    {
        proof {
            reveal(checkpointed_as);
        }
        let (index, _) = insert_checkpoint(&mut self.checkpoints, checkpoint_id.clone(), checkpoint);
        let ghost records0 = self.records@;
        let ghost operators0 = self.operators@;
        let ghost packages0 = self.packages@;
        let mut p: usize = 0;
        while p < participants.len()
            invariant
                p <= participants@.len(),
                index == checkpoint_entries(old(self).checkpoints).len(),
                checkpoint_entries(self.checkpoints) == checkpoint_entries(old(self).checkpoints).push(
                    (checkpoint_id@, checkpoint),
                ),
                records0 == old(self).records@,
                operators0 == old(self).operators@,
                packages0 == old(self).packages@,
                self.package_ids == old(self).package_ids,
                self.records@.len() == records0.len(),
                slot_keys(self.records@) == slot_keys(records0),
                forall|k: int|
                    #![trigger self.records@[k]]
                    0 <= k < records0.len() ==> slot_marked(records0[k], self.records@[k], index),
                forall|j: int|
                    0 <= j < p ==> participant_marked(
                        records0,
                        self.records@,
                        #[trigger] participants@[j],
                        index,
                    ),
                logs_kept(operators0, self.operators@),
                logs_kept(packages0, self.packages@),
                log_keys(self.operators@) == log_keys(operators0),
                log_keys(self.packages@) == log_keys(packages0),
            decreases participants@.len() - p,
        {
            let leaf = &participants[p];
            match find_log(&self.operators, &leaf.log_id) {
                Some(l) => push_checkpoint_index(&mut self.operators, l, index),
                None => match find_log(&self.packages, &leaf.log_id) {
                    Some(l) => push_checkpoint_index(&mut self.packages, l, index),
                    None => {},
                },
            }
            let ghost before = self.records@;
            assert(slot_index(before, leaf.log_id@, leaf.record_id@) == slot_index(
                records0,
                leaf.log_id@,
                leaf.record_id@,
            ));
            match find_slot(&self.records, &leaf.log_id, &leaf.record_id) {
                Ok(i) => {
                    let RecordSlot { log_id: l, record_id: id, kind: k, state } = self.records.remove(i);
                    let state = match state {
                        RecordState::Validated { index: ix, .. } => RecordState::Validated {
                            index: ix,
                            checkpoint_index: Some(index),
                        },
                        other => other,
                    };
                    self.records.insert(i, RecordSlot { log_id: l, record_id: id, kind: k, state });
                    assert(self.records@ =~= before.update(i as int, self.records@[i as int]));
                    assert(slot_keys(self.records@) =~= slot_keys(before));
                },
                Err(_) => {},
            }
            proof {
                assert forall|j: int| 0 <= j < p + 1 implies participant_marked(
                    records0,
                    self.records@,
                    #[trigger] participants@[j],
                    index,
                ) by {
                    if j < p {
                        assert(participant_marked(records0, before, participants@[j], index));
                    }
                    let lj = participants@[j];
                    lemma_first_match_bounds(slot_keys(records0), (lj.log_id@, lj.record_id@));
                    match slot_index(records0, lj.log_id@, lj.record_id@) {
                        Some(k) => {
                            assert(slot_marked(records0[k], before[k], index));
                        },
                        None => {},
                    }
                }
            }
            p = p + 1;
        }
    }
}

/// The positions of the records that a fetch of log `log_id` up to
/// checkpoint `checkpoint_id` returns, after the record `since` (from the
/// start without it), at most `limit` of them: the log's position, the
/// first record and the end. The end is the number of records the
/// checkpoint covers (and no more than the log holds).
pub open spec fn record_range(
    s: MemoryDataStore,
    kind: LogKind,
    log_id: String,
    checkpoint_id: String,
    since: Option<String>,
    limit: u16,
) -> Result<(int, int, int), DataStoreError> {
    let logs = logs_of(s, kind);
    match log_index(logs, log_id@) {
        None => Err(DataStoreError::LogNotFound(log_id)),
        Some(l) => match first_index(checkpoint_entries(s.checkpoints), checkpoint_id@) {
            None => Err(DataStoreError::CheckpointNotFound(checkpoint_id)),
            Some(c) => {
                let start: Result<int, DataStoreError> = match since {
                    None => Ok(0),
                    Some(sid) => match slot_index(s.records@, log_id@, sid@) {
                        Some(k) => match s.records@[k].state {
                            RecordState::Validated { index, .. } => Ok(index + 1),
                            _ => Err(DataStoreError::RecordNotFound(sid)),
                        },
                        None => Err(DataStoreError::RecordNotFound(sid)),
                    },
                };
                match start {
                    Err(e) => Err(e),
                    Ok(start) => {
                        let covered = count_at_or_before(logs[l].checkpoint_indices@, c as usize);
                        let upper = if covered <= logs[l].entries@.len() {
                            covered as int
                        } else {
                            logs[l].entries@.len() as int
                        };
                        let hi = if start >= upper {
                            start
                        } else if start + limit < upper {
                            start + limit
                        } else {
                            upper
                        };
                        Ok((l, start, hi))
                    },
                }
            },
        },
    }
}

/// The fetched records are copies of the log's records in the range.
pub open spec fn fetched_as(
    s: MemoryDataStore,
    kind: LogKind,
    log_id: String,
    checkpoint_id: String,
    since: Option<String>,
    limit: u16,
    r: Result<Vec<Envelope>, DataStoreError>,
) -> bool {
    match record_range(s, kind, log_id, checkpoint_id, since, limit) {
        Err(e) => r == Err::<Vec<Envelope>, DataStoreError>(e),
        Ok((l, lo, hi)) => r matches Ok(v) && v@.len() == hi - lo && forall|i: int|
            0 <= i < v@.len() ==> envelope_bytes(#[trigger] v@[i]) == envelope_bytes(
                logs_of(s, kind)[l].entries@[lo + i],
            ),
    }
}

/// The key a package record's signature is checked with: the key its log
/// binds under the record's key id, else the key of the record's own init
/// entry.
pub open spec fn signature_key(s: MemoryDataStore, log_id: Seq<char>, env: Envelope) -> Option<Seq<u8>> {
    let from_log = match log_index(s.packages@, log_id) {
        Some(l) => match first_index(s.packages@[l].validator@.keys, env.key_id@) {
            Some(i) => Some(s.packages@[l].validator@.keys[i].1),
            None => None,
        },
        None => None,
    };
    match from_log {
        Some(k) => Some(k),
        None => if env.record.entries@.len() > 0 && env.record.entries@[0] is Init {
            Some(env.record.entries@[0]->Init_key@)
        } else {
            None
        },
    }
}

impl MemoryDataStore {
    fn get_records(
        &self,
        kind: LogKind,
        log_id: &String,
        checkpoint_id: &String,
        since: Option<&String>,
        limit: u16,
    ) -> (r: Result<Vec<Envelope>, DataStoreError>)
        ensures
            fetched_as(
                *self,
                kind,
                *log_id,
                *checkpoint_id,
                match since {
                    Some(x) => Some(*x),
                    None => None,
                },
                limit,
                r,
            ),
    {
        let logs = if kind == LogKind::Operator {
            &self.operators
        } else {
            &self.packages
        };
        let l = match find_log(logs, log_id) {
            Some(l) => l,
            None => {
                return Err(DataStoreError::LogNotFound(log_id.clone()));
            },
        };
        let c = match checkpoint_position(&self.checkpoints, checkpoint_id) {
            Some(c) => c,
            None => {
                return Err(DataStoreError::CheckpointNotFound(checkpoint_id.clone()));
            },
        };
        let start: usize = match since {
            None => 0,
            Some(sid) => match find_slot(&self.records, log_id, sid) {
                Ok(k) => match &self.records[k].state {
                    RecordState::Validated { index, .. } => {
                        if *index >= logs[l].entries.len() {
                            logs[l].entries.len()
                        } else {
                            *index + 1
                        }
                    },
                    _ => {
                        return Err(DataStoreError::RecordNotFound(sid.clone()));
                    },
                },
                Err(_) => {
                    return Err(DataStoreError::RecordNotFound(sid.clone()));
                },
            },
        };
        let log = &logs[l];
        proof {
            lemma_count_bounded(log.checkpoint_indices@, c);
        }
        let covered = get_records_before_checkpoint(log.checkpoint_indices.as_slice(), c);
        let upper = if covered <= log.entries.len() {
            covered
        } else {
            log.entries.len()
        };
        let hi = if start >= upper {
            start
        } else if (limit as usize) < upper - start {
            start + limit as usize
        } else {
            upper
        };
        let mut out: Vec<Envelope> = Vec::new();
        let mut i = start;
        while i < hi
            invariant
                start <= i <= hi,
                hi <= log.entries@.len() || start >= hi,
                out@.len() == i - start,
                forall|j: int|
                    0 <= j < out@.len() ==> envelope_bytes(#[trigger] out@[j]) == envelope_bytes(
                        log.entries@[start + j],
                    ),
            decreases hi - i,
        {
            out.push(copy_envelope(&log.entries[i]));
            i = i + 1;
        }
        Ok(out)
    }

    /// The operator records up to a checkpoint, after `since`, at most
    /// `limit` of them.
    pub fn get_operator_records(
        &self,
        log_id: &String,
        checkpoint_id: &String,
        since: Option<&String>,
        limit: u16,
    ) -> (r: Result<Vec<Envelope>, DataStoreError>)
        ensures
            fetched_as(
                *self,
                LogKind::Operator,
                *log_id,
                *checkpoint_id,
                match since {
                    Some(x) => Some(*x),
                    None => None,
                },
                limit,
                r,
            ),
    {
        self.get_records(LogKind::Operator, log_id, checkpoint_id, since, limit)
    }

    /// The package records up to a checkpoint, after `since`, at most
    /// `limit` of them.
    pub fn get_package_records(
        &self,
        log_id: &String,
        checkpoint_id: &String,
        since: Option<&String>,
        limit: u16,
    ) -> (r: Result<Vec<Envelope>, DataStoreError>)
        ensures
            fetched_as(
                *self,
                LogKind::Package,
                *log_id,
                *checkpoint_id,
                match since {
                    Some(x) => Some(*x),
                    None => None,
                },
                limit,
                r,
            ),
    {
        self.get_records(LogKind::Package, log_id, checkpoint_id, since, limit)
    }

    /// Checks a package record's signature against the key its log binds
    /// under the record's key id, or else the key of its own init entry.
    pub fn verify_package_record_signature(&self, log_id: &String, record: &Envelope) -> (r: Result<
        (),
        DataStoreError,
    >)
        ensures
            signature_key(*self, log_id@, *record) is None ==> r == Err::<(), DataStoreError>(
                DataStoreError::UnknownKey(record.key_id),
            ),
            signature_key(*self, log_id@, *record) matches Some(k) ==> r == (if p256_accepts(
                k,
                record_message(record.record),
                record.signature@,
            ) {
                Ok::<(), DataStoreError>(())
            } else {
                Err(DataStoreError::SignatureVerificationFailed)
            }),
    {
        let from_log = match find_log(&self.packages, log_id) {
            Some(l) => self.packages[l].validator.public_key(&record.key_id),
            None => None,
        };
        let key = match from_log {
            Some(k) => k,
            None => {
                if record.record.entries.len() > 0 {
                    match &record.record.entries[0] {
                        Entry::Init { key } => key,
                        _ => {
                            return Err(DataStoreError::UnknownKey(record.key_id.clone()));
                        },
                    }
                } else {
                    return Err(DataStoreError::UnknownKey(record.key_id.clone()));
                }
            },
        };
        let message = encode_record(&record.record);
        if verify_signature(key.as_slice(), message.as_slice(), record.signature.as_slice()) {
            Ok(())
        } else {
            Err(DataStoreError::SignatureVerificationFailed)
        }
    }
}

impl Default for MemoryDataStore {
    fn default() -> (r: MemoryDataStore)
        ensures
            r.operators@.len() == 0,
            r.packages@.len() == 0,
            r.package_ids@.len() == 0,
            r.records@.len() == 0,
            checkpoint_entries(r.checkpoints).len() == 0,
    {
        MemoryDataStore::new()
    }
}

proof fn lemma_slot_keys_update(rs: Seq<RecordSlot>, i: int, slot: RecordSlot)
    requires
        0 <= i < rs.len(),
        slot.log_id@ == rs[i].log_id@,
        slot.record_id@ == rs[i].record_id@,
    ensures
        slot_keys(rs.update(i, slot)) == slot_keys(rs),
{
    assert(slot_keys(rs.update(i, slot)) =~= slot_keys(rs));
}

proof fn lemma_reported_published(
    s: MemoryDataStore,
    log_id: String,
    record_id: String,
    i: int,
    ix: usize,
    n: usize,
    l: int,
    r: Result<StoredRecord, DataStoreError>,
)
    requires
        reported_as(s, LogKind::Package, log_id, record_id, r),
        slot_index(s.records@, log_id@, record_id@) == Some(i),
        s.records@[i].state == (RecordState::Validated { index: ix, checkpoint_index: Some(n) }),
        log_index(s.packages@, log_id@) == Some(l),
        ix < s.packages@[l].entries@.len(),
        n < checkpoint_entries(s.checkpoints).len(),
    ensures
        r matches Ok(rec) && rec.status == RecordStatus::Published && rec.checkpoint == Some(
            checkpoint_entries(s.checkpoints)[n as int].1,
        ) && envelope_bytes(rec.envelope) == envelope_bytes(s.packages@[l].entries@[ix as int]),
{
    reveal(reported_as);
}

/// A package record that was pending with envelope `env`, was then
/// validated, and was then named in a stored checkpoint, is reported as
/// published under that checkpoint, with an envelope whose encoding is that
/// of `env`.
proof fn lemma_validated_package(
    s0: MemoryDataStore,
    s1: MemoryDataStore,
    log_id: String,
    record_id: String,
    env: Envelope,
    i: int,
) -> (l: int)
    requires
        slot_index(s0.records@, log_id@, record_id@) == Some(i),
        0 <= i < s0.records@.len(),
        s0.records@[i].kind == LogKind::Package,
        s0.records@[i].state matches RecordState::Pending { envelope, .. } && envelope == env,
        validated_as(s0, s1, LogKind::Package, log_id, record_id, Ok(())),
    ensures
        slot_index(s1.records@, log_id@, record_id@) == Some(i),
        s1.records@.len() == s0.records@.len(),
        s1.records@[i].state == (RecordState::Validated {
            index: base_entries(s0.packages@, log_id@).len() as usize,
            checkpoint_index: None,
        }),
        log_index(s1.packages@, log_id@) == Some(l),
        0 <= l < s1.packages@.len(),
        base_entries(s0.packages@, log_id@).len() < s1.packages@[l].entries@.len(),
        s1.packages@[l].entries@[base_entries(s0.packages@, log_id@).len() as int] == env,
        base_entries(s0.packages@, log_id@).len() < usize::MAX,
{
    reveal(validated_as);
    let slot1 = s1.records@[i];
    lemma_slot_keys_update(s0.records@, i, slot1);
    lemma_first_match_bounds(log_keys(s1.packages@), log_id@);
    let l = log_index(s1.packages@, log_id@)->Some_0;
    assert(s1.packages@[l].entries@.len() == s1.packages@[l].entries.len());
    l
}

proof fn lemma_checkpointed_record(
    s1: MemoryDataStore,
    s2: MemoryDataStore,
    log_id: String,
    record_id: String,
    checkpoint_id: String,
    checkpoint: Checkpoint,
    participants: Seq<LogLeaf>,
    j: int,
    i: int,
    ix: usize,
    l: int,
)
    requires
        checkpointed_as(s1, s2, checkpoint_id, checkpoint, participants),
        0 <= j < participants.len(),
        participants[j].log_id@ == log_id@,
        participants[j].record_id@ == record_id@,
        slot_index(s1.records@, log_id@, record_id@) == Some(i),
        0 <= i < s1.records@.len(),
        s1.records@[i].state == (RecordState::Validated { index: ix, checkpoint_index: None }),
        log_index(s1.packages@, log_id@) == Some(l),
        0 <= l < s1.packages@.len(),
    ensures
        slot_index(s2.records@, log_id@, record_id@) == Some(i),
        s2.records@[i].state == (RecordState::Validated {
            index: ix,
            checkpoint_index: Some(checkpoint_entries(s1.checkpoints).len() as usize),
        }),
        log_index(s2.packages@, log_id@) == Some(l),
        s2.packages@[l].entries == s1.packages@[l].entries,
        checkpoint_entries(s1.checkpoints).len() <= usize::MAX,
        checkpoint_entries(s1.checkpoints).len() < checkpoint_entries(s2.checkpoints).len(),
        checkpoint_entries(s2.checkpoints)[checkpoint_entries(s1.checkpoints).len() as int].1
            == checkpoint,
{
    reveal(checkpointed_as);
    let n = checkpoint_entries(s1.checkpoints).len() as usize;
    assert(participant_marked(s1.records@, s2.records@, participants[j], n));
    assert(slot_marked(s1.records@[i], s2.records@[i], n));
    assert(slot_keys(s2.records@) =~= slot_keys(s1.records@));
    assert(log_keys(s2.packages@) =~= log_keys(s1.packages@));
}

/// A package record that was pending with envelope `env`, was then
/// validated, and was then named in a stored checkpoint, is reported as
/// published under that checkpoint, with an envelope whose encoding is that
/// of `env`.
pub proof fn lemma_publish_then_fetch(
    s0: MemoryDataStore,
    s1: MemoryDataStore,
    s2: MemoryDataStore,
    log_id: String,
    record_id: String,
    env: Envelope,
    checkpoint_id: String,
    checkpoint: Checkpoint,
    participants: Seq<LogLeaf>,
    j: int,
    r: Result<StoredRecord, DataStoreError>,
)
    requires
        slot_index(s0.records@, log_id@, record_id@) matches Some(i) && s0.records@[i].kind
            == LogKind::Package && (s0.records@[i].state matches RecordState::Pending {
            envelope,
            ..
        } && envelope == env),
        validated_as(s0, s1, LogKind::Package, log_id, record_id, Ok(())),
        checkpointed_as(s1, s2, checkpoint_id, checkpoint, participants),
        0 <= j < participants.len(),
        participants[j].log_id@ == log_id@,
        participants[j].record_id@ == record_id@,
        reported_as(s2, LogKind::Package, log_id, record_id, r),
    ensures
        r matches Ok(rec) && rec.status == RecordStatus::Published && rec.checkpoint == Some(
            checkpoint,
        ) && envelope_bytes(rec.envelope) == envelope_bytes(env),
{
    let i = slot_index(s0.records@, log_id@, record_id@)->Some_0;
    lemma_first_match_bounds(slot_keys(s0.records@), (log_id@, record_id@));
    let ix = base_entries(s0.packages@, log_id@).len() as usize;
    let l = lemma_validated_package(s0, s1, log_id, record_id, env, i);
    lemma_checkpointed_record(
        s1,
        s2,
        log_id,
        record_id,
        checkpoint_id,
        checkpoint,
        participants,
        j,
        i,
        ix,
        l,
    );
    let n = checkpoint_entries(s1.checkpoints).len() as usize;
    lemma_reported_published(s2, log_id, record_id, i, ix, n, l, r);
}

} // verus!
