//! The checkpoint synchronizer: brings a set of package logs (and the
//! operator log) up to a trusted checkpoint. Each stage is a value that the
//! caller advances with what the registry answered; storage is written only
//! from the final commit.
use crate::checkpoint::{
    check_consistency, checkpoint_message, consistency_spec, encode_checkpoint, Checkpoint,
    ConsistencyCheck, ConsistencyRequest, SignedCheckpoint,
};
use crate::digest::{operator_log_id, operator_log_id_spec, package_log_id, package_log_id_spec};
use crate::error::{ClientError, ValidationError};
use crate::record::Envelope;
use crate::signing::{p256_accepts, verify_signature};
use crate::validator::{first_index, validate_spec, LogKind, LogState, LogView};
use vstd::prelude::*;

verus! {

/// The cached view of the operator log.
pub struct OperatorInfo {
    pub state: LogState,
    pub head_registry_index: Option<u64>,
    pub head_fetch_token: Option<String>,
}

/// The cached view of a package log.
pub struct PackageInfo {
    pub name: String,
    pub state: LogState,
    pub head_registry_index: Option<u64>,
    pub head_fetch_token: Option<String>,
    /// The checkpoint under which the head was last proved included.
    pub checkpoint: Option<Checkpoint>,
}

/// A record as the registry publishes it: its envelope, its position in
/// the registry log, and an opaque token to resume fetching after it.
pub struct PublishedRecord {
    pub envelope: Envelope,
    pub registry_index: u64,
    pub fetch_token: String,
}

/// Where a log stands: its validator state, the registry index of its
/// head, and the fetch token of its head.
pub struct LogCursor {
    pub state: LogView,
    pub index: Option<u64>,
    pub token: Option<Seq<char>>,
}

pub open spec fn token_view(t: Option<String>) -> Option<Seq<char>> {
    match t {
        Some(t) => Some(t@),
        None => None,
    }
}

impl OperatorInfo {
    pub open spec fn cursor(self) -> LogCursor {
        LogCursor {
            state: self.state@,
            index: self.head_registry_index,
            token: token_view(self.head_fetch_token),
        }
    }

    /// The operator log before any record.
    pub fn new() -> (r: OperatorInfo)
        ensures
            r.state@ == LogState::new_spec(LogKind::Operator),
            r.head_registry_index is None,
            r.head_fetch_token is None,
    {
        OperatorInfo {
            state: LogState::new(LogKind::Operator),
            head_registry_index: None,
            head_fetch_token: None,
        }
    }
}

impl PackageInfo {
    pub open spec fn cursor(self) -> LogCursor {
        LogCursor {
            state: self.state@,
            index: self.head_registry_index,
            token: token_view(self.head_fetch_token),
        }
    }

    /// The log of the named package before any record.
    pub fn new(name: String) -> (r: PackageInfo)
        ensures
            r.name == name,
            r.state@ == LogState::new_spec(LogKind::Package),
            r.head_registry_index is None,
            r.head_fetch_token is None,
            r.checkpoint is None,
    {
        PackageInfo {
            name,
            state: LogState::new(LogKind::Package),
            head_registry_index: None,
            head_fetch_token: None,
            checkpoint: None,
        }
    }
}

/// One fetched record applied to a log. A record at or below the head's
/// registry index was applied before and is skipped; any other is
/// validated and becomes the head.
pub open spec fn apply_record(c: LogCursor, rec: PublishedRecord) -> Result<LogCursor, ValidationError> {
    if c.index is None || rec.registry_index > c.index.unwrap() {
        match validate_spec(c.state, rec.envelope) {
            Ok(w) => Ok(
                LogCursor {
                    state: w,
                    index: Some(rec.registry_index),
                    token: Some(rec.fetch_token@),
                },
            ),
            Err(e) => Err(e),
        }
    } else {
        Ok(c)
    }
}

/// Fetched records applied in order; the first refusal stops them.
pub open spec fn apply_records(c: LogCursor, recs: Seq<PublishedRecord>) -> Result<
    LogCursor,
    ValidationError,
>
    decreases recs.len(),
{
    if recs.len() == 0 {
        Ok(c)
    } else {
        match apply_records(c, recs.drop_last()) {
            Ok(d) => apply_record(d, recs.last()),
            Err(e) => Err(e),
        }
    }
}

proof fn lemma_apply_records_stops(c: LogCursor, recs: Seq<PublishedRecord>, k: int)
    requires
        0 <= k <= recs.len(),
        apply_records(c, recs.take(k)) is Err,
    ensures
        apply_records(c, recs) == apply_records(c, recs.take(k)),
    decreases recs.len() - k,
{
    if k == recs.len() {
        assert(recs.take(k) =~= recs);
    } else {
        assert(recs.drop_last().take(k) =~= recs.take(k));
        lemma_apply_records_stops(c, recs.drop_last(), k);
    }
}

fn copy_token(t: &String) -> (r: String)
    ensures
        r == *t,
{
    t.clone()
}

/// Applies fetched records to a log, in order.
fn apply_records_to(
    state: &mut LogState,
    index: &mut Option<u64>,
    token: &mut Option<String>,
    recs: &Vec<PublishedRecord>,
) -> (r: Result<(), ValidationError>)
    ensures
        ({
            let c = LogCursor { state: old(state)@, index: *old(index), token: token_view(*old(token)) };
            let d = LogCursor { state: final(state)@, index: *final(index), token: token_view(*final(token)) };
            &&& apply_records(c, recs@) matches Ok(e) ==> r is Ok && d == e
            &&& apply_records(c, recs@) matches Err(e) ==> r == Err::<(), ValidationError>(e)
        }),
{
    let ghost c0 = LogCursor { state: state@, index: *index, token: token_view(*token) };
    let mut i: usize = 0;
    while i < recs.len()
        invariant
            i <= recs@.len(),
            c0 == (LogCursor {
                state: old(state)@,
                index: *old(index),
                token: token_view(*old(token)),
            }),
            apply_records(c0, recs@.take(i as int)) == Ok::<LogCursor, ValidationError>(
                LogCursor { state: state@, index: *index, token: token_view(*token) },
            ),
        decreases recs@.len() - i,
    {
        assert(recs@.take(i + 1).drop_last() =~= recs@.take(i as int));
        assert(recs@.take(i + 1).last() == recs@[i as int]);
        let rec = &recs[i];
        let fresh = match *index {
            None => true,
            Some(h) => rec.registry_index > h,
        };
        let ghost before = LogCursor { state: state@, index: *index, token: token_view(*token) };
        if fresh {
            match state.validate(&rec.envelope) {
                Ok(()) => {
                    *index = Some(rec.registry_index);
                    *token = Some(copy_token(&rec.fetch_token));
                },
                Err(e) => {
                    proof {
                        lemma_apply_records_stops(c0, recs@, i + 1);
                    }
                    return Err(e);
                },
            }
        }
        i = i + 1;
    }
    assert(recs@.take(recs@.len() as int) =~= recs@);
    Ok(())
}

/// A package log taking part in a synchronization, with the id of its log
/// and whether it is behind the target checkpoint (only those are updated).
pub struct SyncEntry {
    pub info: PackageInfo,
    pub log_id: String,
    pub updating: bool,
}

/// What a synchronization knows of one package log.
pub struct EntryView {
    pub name: String,
    pub cursor: LogCursor,
    pub checkpoint: Option<Checkpoint>,
    pub log_id: String,
    pub updating: bool,
}

impl SyncEntry {
    pub open spec fn view_of(self) -> EntryView {
        EntryView {
            name: self.info.name,
            cursor: self.info.cursor(),
            checkpoint: self.info.checkpoint,
            log_id: self.log_id,
            updating: self.updating,
        }
    }
}

pub open spec fn entries_view(es: Seq<SyncEntry>) -> Seq<EntryView> {
    es.map_values(|e: SyncEntry| e.view_of())
}

/// A request for the records of the operator log and of package logs, each
/// after its fetch token (from the start where there is none), up to a log
/// length.
pub struct FetchLogsRequest {
    pub log_length: u64,
    pub operator: Option<String>,
    pub packages: Vec<(String, Option<String>)>,
    pub limit: Option<u16>,
}

/// The registry's answer to a fetch: operator records, records per package
/// log id, and whether more remain.
pub struct FetchLogsResponse {
    pub operator: Vec<PublishedRecord>,
    pub packages: Vec<(String, Vec<PublishedRecord>)>,
    pub more: bool,
}

/// A synchronization in its fetch stage.
pub struct Synchronizer {
    pub checkpoint: SignedCheckpoint,
    pub operator: OperatorInfo,
    pub entries: Vec<SyncEntry>,
}

/// How a synchronization starts.
pub enum SyncStart {
    /// Every package is already at the checkpoint: nothing to do. The
    /// packages are handed back as they came.
    UpToDate(Vec<PackageInfo>),
    /// Some package is behind: fetching starts.
    Fetch(Synchronizer),
}

/// A package is at a checkpoint when its own checkpoint is that one.
pub open spec fn at_checkpoint(p: PackageInfo, cp: Checkpoint) -> bool {
    p.checkpoint matches Some(c) && c.same_as(cp)
}

/// Every package is at the checkpoint.
pub open spec fn all_at_checkpoint(ps: Seq<PackageInfo>, cp: Checkpoint) -> bool {
    forall|i: int| 0 <= i < ps.len() ==> at_checkpoint(#[trigger] ps[i], cp)
}

/// The fetch tokens of the logs being updated, in order, keyed by log id.
pub open spec fn last_known(es: Seq<SyncEntry>) -> Seq<(String, Option<String>)>
    decreases es.len(),
{
    if es.len() == 0 {
        Seq::empty()
    } else if es.last().updating {
        last_known(es.drop_last()).push((es.last().log_id, es.last().info.head_fetch_token))
    } else {
        last_known(es.drop_last())
    }
}

/// The first log being updated whose id is `id`.
pub open spec fn updating_index(es: Seq<EntryView>, id: Seq<char>) -> Option<int>
    decreases es.len(),
{
    if es.len() == 0 {
        None
    } else {
        match updating_index(es.drop_last(), id) {
            Some(i) => Some(i),
            None => if es.last().updating && es.last().log_id@ == id {
                Some(es.len() - 1)
            } else {
                None
            },
        }
    }
}

/// The records of one package log applied: the log must be one being
/// updated, its records must validate, and afterwards it must not be empty.
pub open spec fn apply_batch(es: Seq<EntryView>, batch: (String, Vec<PublishedRecord>)) -> Result<
    Seq<EntryView>,
    ClientError,
> {
    match updating_index(es, batch.0@) {
        None => Err(ClientError::UnknownPackageLog { log_id: batch.0 }),
        Some(i) => match apply_records(es[i].cursor, batch.1@) {
            Err(e) => Err(ClientError::PackageValidationFailed { name: es[i].name, inner: e }),
            Ok(c) => if c.state.head is None {
                Err(ClientError::PackageLogEmpty { name: es[i].name })
            } else {
                Ok(es.update(i, EntryView { cursor: c, ..es[i] }))
            },
        },
    }
}

/// The package batches of a response applied in order.
pub open spec fn apply_batches(es: Seq<EntryView>, batches: Seq<(String, Vec<PublishedRecord>)>) -> Result<
    Seq<EntryView>,
    ClientError,
>
    decreases batches.len(),
{
    if batches.len() == 0 {
        Ok(es)
    } else {
        match apply_batches(es, batches.drop_last()) {
            Ok(fs) => apply_batch(fs, batches.last()),
            Err(e) => Err(e),
        }
    }
}

/// A fetch response applied: first the operator records, then each package
/// batch.
pub open spec fn apply_response(op: LogCursor, es: Seq<EntryView>, resp: FetchLogsResponse) -> Result<
    (LogCursor, Seq<EntryView>),
    ClientError,
> {
    match apply_records(op, resp.operator@) {
        Err(e) => Err(ClientError::OperatorValidationFailed { inner: e }),
        Ok(op2) => match apply_batches(es, resp.packages@) {
            Ok(es2) => Ok((op2, es2)),
            Err(e) => Err(e),
        },
    }
}

proof fn lemma_apply_batches_stops(
    es: Seq<EntryView>,
    batches: Seq<(String, Vec<PublishedRecord>)>,
    k: int,
)
    requires
        0 <= k <= batches.len(),
        apply_batches(es, batches.take(k)) is Err,
    ensures
        apply_batches(es, batches) == apply_batches(es, batches.take(k)),
    decreases batches.len() - k,
{
    if k == batches.len() {
        assert(batches.take(k) =~= batches);
    } else {
        assert(batches.drop_last().take(k) =~= batches.take(k));
        lemma_apply_batches_stops(es, batches.drop_last(), k);
    }
}

proof fn lemma_updating_index_prefix(es: Seq<EntryView>, id: Seq<char>, n: int)
    requires
        0 <= n <= es.len(),
        updating_index(es.take(n), id) is Some,
    ensures
        updating_index(es, id) == updating_index(es.take(n), id),
    decreases es.len() - n,
{
    if n == es.len() {
        assert(es.take(n) =~= es);
    } else {
        assert(es.drop_last().take(n) =~= es.take(n));
        lemma_updating_index_prefix(es.drop_last(), id, n);
    }
}

fn find_updating(es: &Vec<SyncEntry>, id: &String) -> (r: Option<usize>)
    ensures
        r matches Some(i) ==> i < es@.len() && updating_index(entries_view(es@), id@) == Some(
            i as int,
        ),
        r is None ==> updating_index(entries_view(es@), id@) is None,
{
    let ghost s = entries_view(es@);
    let mut i: usize = 0;
    while i < es.len()
        invariant
            i <= es@.len(),
            s == entries_view(es@),
            updating_index(s.take(i as int), id@) is None,
        decreases es@.len() - i,
    {
        assert(s.take(i + 1).drop_last() =~= s.take(i as int));
        if es[i].updating && es[i].log_id == *id {
            proof {
                lemma_updating_index_prefix(s, id@, i + 1);
            }
            return Some(i);
        }
        i = i + 1;
    }
    assert(s.take(s.len() as int) =~= s);
    None
}

fn copy_optional_token(t: &Option<String>) -> (r: Option<String>)
    ensures
        r == *t,
{
    match t {
        Some(t) => Some(t.clone()),
        None => None,
    }
}

impl Synchronizer {
    /// Starts synchronizing `packages` to the trusted `checkpoint` from the
    /// cached operator log. Packages already at the checkpoint are left out
    /// of the update; when that is all of them there is nothing to do.
    pub fn start(checkpoint: SignedCheckpoint, operator: OperatorInfo, packages: Vec<PackageInfo>) -> (r:
        SyncStart)
        ensures
            all_at_checkpoint(packages@, checkpoint.content.checkpoint) <==> r is UpToDate,
            r matches SyncStart::UpToDate(ps) ==> ps@ == packages@,
            r matches SyncStart::Fetch(s) ==> {
                &&& s.checkpoint == checkpoint
                &&& s.operator == operator
                &&& s.entries@.len() == packages@.len()
                &&& forall|i: int|
                    #![trigger s.entries@[i]]
                    0 <= i < packages@.len() ==> {
                        &&& s.entries@[i].info == packages@[i]
                        &&& s.entries@[i].log_id@ == package_log_id_spec(packages@[i].name@)
                        &&& s.entries@[i].updating == !at_checkpoint(
                            packages@[i],
                            checkpoint.content.checkpoint,
                        )
                    }
            },
    {
        let target = &checkpoint.content.checkpoint;
        let mut k: usize = 0;
        let mut all_fresh = true;
        while k < packages.len()
            invariant
                k <= packages@.len(),
                all_fresh <==> forall|i: int|
                    0 <= i < k ==> at_checkpoint(#[trigger] packages@[i], *target),
            decreases packages@.len() - k,
        {
            let fresh = match &packages[k].checkpoint {
                Some(c) => c.matches(target),
                None => false,
            };
            if !fresh {
                all_fresh = false;
            }
            k = k + 1;
        }
        if all_fresh {
            return SyncStart::UpToDate(packages);
        }
        let ghost orig = packages@;
        let mut rest = packages;
        let mut entries: Vec<SyncEntry> = Vec::new();
        while rest.len() > 0
            invariant
                entries@.len() + rest@.len() == orig.len(),
                rest@ == orig.subrange(entries@.len() as int, orig.len() as int),
                forall|i: int|
                    #![trigger entries@[i]]
                    0 <= i < entries@.len() ==> {
                        &&& entries@[i].info == orig[i]
                        &&& entries@[i].log_id@ == package_log_id_spec(orig[i].name@)
                        &&& entries@[i].updating == !at_checkpoint(orig[i], *target)
                    },
            decreases rest@.len(),
        {
            let p = rest.remove(0);
            let fresh = match &p.checkpoint {
                Some(c) => c.matches(target),
                None => false,
            };
            let log_id = package_log_id(p.name.as_str());
            entries.push(SyncEntry { info: p, log_id, updating: !fresh });
        }
        SyncStart::Fetch(Synchronizer { checkpoint, operator, entries })
    }

    /// The next fetch: up to the checkpoint's log length, after the
    /// operator log's fetch token and each updated package log's token.
    pub fn fetch_request(&self) -> (r: FetchLogsRequest)
        ensures
            r.log_length == self.checkpoint.content.checkpoint.log_length,
            r.operator == self.operator.head_fetch_token,
            r.packages@ == last_known(self.entries@),
            r.limit is None,
    {
        let mut packages: Vec<(String, Option<String>)> = Vec::new();
        let mut i: usize = 0;
        while i < self.entries.len()
            invariant
                i <= self.entries@.len(),
                packages@ == last_known(self.entries@.take(i as int)),
            decreases self.entries@.len() - i,
        {
            assert(self.entries@.take(i + 1).drop_last() =~= self.entries@.take(i as int));
            let e = &self.entries[i];
            if e.updating {
                packages.push((e.log_id.clone(), copy_optional_token(&e.info.head_fetch_token)));
            }
            i = i + 1;
        }
        assert(self.entries@.take(self.entries@.len() as int) =~= self.entries@);
        FetchLogsRequest {
            log_length: self.checkpoint.content.checkpoint.log_length,
            operator: copy_optional_token(&self.operator.head_fetch_token),
            packages,
            limit: None,
        }
    }

    /// Applies a fetch response, and hands back the synchronizer with the
    /// response's `more` flag: while it is set, fetch again.
    pub fn apply(self, resp: FetchLogsResponse) -> (r: Result<(Synchronizer, bool), ClientError>)
        ensures
            apply_response(self.operator.cursor(), entries_view(self.entries@), resp) matches Err(e)
                ==> r == Err::<(Synchronizer, bool), ClientError>(e),
            apply_response(self.operator.cursor(), entries_view(self.entries@), resp) matches Ok(
                (op, es),
            ) ==> r matches Ok((s, more)) && more == resp.more && s.checkpoint == self.checkpoint
                && s.operator.cursor() == op && entries_view(s.entries@) == es,
    {
        let mut s = self;
        let ghost es0 = entries_view(s.entries@);
        match apply_records_to(
            &mut s.operator.state,
            &mut s.operator.head_registry_index,
            &mut s.operator.head_fetch_token,
            &resp.operator,
        ) {
            Ok(()) => {},
            Err(e) => {
                return Err(ClientError::OperatorValidationFailed { inner: e });
            },
        }
        let mut j: usize = 0;
        while j < resp.packages.len()
            invariant
                j <= resp.packages@.len(),
                s.checkpoint == self.checkpoint,
                apply_records(self.operator.cursor(), resp.operator@) == Ok::<
                    LogCursor,
                    ValidationError,
                >(s.operator.cursor()),
                es0 == entries_view(self.entries@),
                apply_batches(es0, resp.packages@.take(j as int)) == Ok::<
                    Seq<EntryView>,
                    ClientError,
                >(entries_view(s.entries@)),
            decreases resp.packages@.len() - j,
        {
            assert(resp.packages@.take(j + 1).drop_last() =~= resp.packages@.take(j as int));
            assert(resp.packages@.take(j + 1).last() == resp.packages@[j as int]);
            let batch = &resp.packages[j];
            let ghost before = entries_view(s.entries@);
            match find_updating(&s.entries, &batch.0) {
                None => {
                    proof {
                        lemma_apply_batches_stops(es0, resp.packages@, j + 1);
                    }
                    return Err(ClientError::UnknownPackageLog { log_id: batch.0.clone() });
                },
                Some(i) => {
                    let mut e = s.entries.remove(i);
                    assert(e.view_of() == before[i as int]);
                    let applied = apply_records_to(
                        &mut e.info.state,
                        &mut e.info.head_registry_index,
                        &mut e.info.head_fetch_token,
                        &batch.1,
                    );
                    match applied {
                        Ok(()) => {},
                        Err(err) => {
                            proof {
                                lemma_apply_batches_stops(es0, resp.packages@, j + 1);
                            }
                            return Err(
                                ClientError::PackageValidationFailed {
                                    name: e.info.name.clone(),
                                    inner: err,
                                },
                            );
                        },
                    }
                    if e.info.state.head.is_none() {
                        proof {
                            lemma_apply_batches_stops(es0, resp.packages@, j + 1);
                        }
                        return Err(ClientError::PackageLogEmpty { name: e.info.name.clone() });
                    }
                    s.entries.insert(i, e);
                    assert(entries_view(s.entries@) =~= before.update(
                        i as int,
                        EntryView { cursor: e.info.cursor(), ..before[i as int] },
                    ));
                },
            }
            j = j + 1;
        }
        assert(resp.packages@.take(resp.packages@.len() as int) =~= resp.packages@);
        Ok((s, resp.more))
    }
}

/// A leaf of an inclusion proof: a log and the id of its head record.
pub struct LogLeaf {
    pub log_id: String,
    pub record_id: String,
}

/// A request for a proof that the leaves at these registry indices are
/// included in the log of this length.
pub struct InclusionRequest {
    pub log_length: u64,
    pub leafs: Vec<u64>,
}

/// A synchronization whose records are fetched and whose checkpoint
/// signature is verified: the heads must now be proved included.
pub struct InclusionStage {
    pub sync: Synchronizer,
    pub request: InclusionRequest,
    pub leaves: Vec<LogLeaf>,
}

/// What storage receives when a synchronization succeeds: the operator
/// log, every package (those that were updated now at the checkpoint, the
/// others as they came), which of them were updated, and the checkpoint.
/// They are stored in that order: operator, updated packages, checkpoint.
pub struct SyncCommit {
    pub operator: OperatorInfo,
    pub packages: Vec<PackageInfo>,
    pub updated: Vec<bool>,
    pub checkpoint: SignedCheckpoint,
}

/// The end of a synchronization: the consistency proof that is still to be
/// checked, if the log grew since the trusted checkpoint, and the commit.
pub struct SyncFinish {
    pub consistency: Option<ConsistencyRequest>,
    pub commit: SyncCommit,
}

/// Why the checkpoint's signature is refused, if it is: its key must be
/// bound in the operator log and the signature must verify under it.
pub open spec fn checkpoint_refusal(op: LogView, cp: SignedCheckpoint) -> Option<ClientError> {
    match first_index(op.keys, cp.key_id@) {
        None => Some(ClientError::InvalidCheckpointKeyId { key_id: cp.key_id }),
        Some(i) => if p256_accepts(op.keys[i].1, checkpoint_message(cp.content), cp.signature@) {
            None
        } else {
            Some(ClientError::InvalidCheckpointSignature)
        },
    }
}

/// The leaves (registry index, log id, head record id) of the updated
/// package logs, in order; each must have a head.
pub open spec fn package_leaves(es: Seq<SyncEntry>) -> Result<
    Seq<(u64, Seq<char>, Seq<char>)>,
    ClientError,
>
    decreases es.len(),
{
    if es.len() == 0 {
        Ok(Seq::empty())
    } else {
        match package_leaves(es.drop_last()) {
            Err(e) => Err(e),
            Ok(ls) => {
                let e = es.last();
                if !e.updating {
                    Ok(ls)
                } else {
                    match (e.info.head_registry_index, e.info.state.head) {
                        (Some(i), Some(h)) => Ok(ls.push((i, e.log_id@, h.digest@))),
                        _ => Err(ClientError::PackageLogEmpty { name: e.info.name }),
                    }
                }
            },
        }
    }
}

/// The leaves to prove included once fetching is over: the checkpoint's
/// signature must hold, then the operator head comes first and the updated
/// package heads follow in order.
pub open spec fn inclusion_spec(s: Synchronizer) -> Result<
    Seq<(u64, Seq<char>, Seq<char>)>,
    ClientError,
> {
    match checkpoint_refusal(s.operator.state@, s.checkpoint) {
        Some(e) => Err(e),
        None => match (s.operator.head_registry_index, s.operator.state.head) {
            (Some(i), Some(h)) => match package_leaves(s.entries@) {
                Ok(ls) => Ok(seq![(i, operator_log_id_spec(), h.digest@)] + ls),
                Err(e) => Err(e),
            },
            _ => Err(ClientError::NoOperatorRecords),
        },
    }
}

/// The packages as committed: those updated now carry the checkpoint.
pub open spec fn committed(es: Seq<SyncEntry>, cp: Checkpoint) -> Seq<PackageInfo> {
    es.map_values(
        |e: SyncEntry|
            if e.updating {
                PackageInfo { checkpoint: Some(cp), ..e.info }
            } else {
                e.info
            },
    )
}

proof fn lemma_package_leaves_stops(es: Seq<SyncEntry>, k: int)
    requires
        0 <= k <= es.len(),
        package_leaves(es.take(k)) is Err,
    ensures
        package_leaves(es) == package_leaves(es.take(k)),
    decreases es.len() - k,
{
    if k == es.len() {
        assert(es.take(k) =~= es);
    } else {
        assert(es.drop_last().take(k) =~= es.take(k));
        lemma_package_leaves_stops(es.drop_last(), k);
    }
}

impl Synchronizer {
    /// Ends the fetch stage: verifies the checkpoint's signature under the
    /// operator log's key and gathers the heads to prove included.
    pub fn verify(self) -> (r: Result<InclusionStage, ClientError>)
        ensures
            inclusion_spec(self) matches Err(e) ==> r == Err::<InclusionStage, ClientError>(e),
            inclusion_spec(self) matches Ok(ls) ==> r matches Ok(st) && st.sync == self
                && st.request.log_length == self.checkpoint.content.checkpoint.log_length
                && st.request.leafs@.len() == ls.len() && st.leaves@.len() == ls.len() && forall|
                i: int,
            |
                #![trigger st.leaves@[i]]
                0 <= i < ls.len() ==> ls[i] == (
                    st.request.leafs@[i],
                    st.leaves@[i].log_id@,
                    st.leaves@[i].record_id@,
                ),
    {
        let key = match self.operator.state.public_key(&self.checkpoint.key_id) {
            Some(k) => k,
            None => {
                return Err(
                    ClientError::InvalidCheckpointKeyId { key_id: self.checkpoint.key_id.clone() },
                );
            },
        };
        let message = encode_checkpoint(&self.checkpoint.content);
        if !verify_signature(key.as_slice(), message.as_slice(), self.checkpoint.signature.as_slice()) {
            return Err(ClientError::InvalidCheckpointSignature);
        }
        let mut leafs: Vec<u64> = Vec::new();
        let mut leaves: Vec<LogLeaf> = Vec::new();
        match (self.operator.head_registry_index, &self.operator.state.head) {
            (Some(index), Some(h)) => {
                leafs.push(index);
                leaves.push(LogLeaf { log_id: operator_log_id(), record_id: h.digest.clone() });
            },
            _ => {
                return Err(ClientError::NoOperatorRecords);
            },
        }
        let ghost first = (leafs@[0], leaves@[0].log_id@, leaves@[0].record_id@);
        assert(inclusion_spec(self) == match package_leaves(self.entries@) {
            Ok(ls) => Ok(seq![first] + ls),
            Err(e) => Err(e),
        });
        let mut i: usize = 0;
        while i < self.entries.len()
            invariant
                i <= self.entries@.len(),
                inclusion_spec(self) == match package_leaves(self.entries@) {
                    Ok(ls) => Ok(seq![first] + ls),
                    Err(e) => Err(e),
                },
                package_leaves(self.entries@.take(i as int)) matches Ok(ls) && leafs@.len() == ls.len()
                    + 1 && leaves@.len() == ls.len() + 1 && (leafs@[0], leaves@[0].log_id@, leaves@[0].record_id@) == first
                    && forall|j: int|
                    #![trigger ls[j]]
                    0 <= j < ls.len() ==> ls[j] == (
                        leafs@[j + 1],
                        leaves@[j + 1].log_id@,
                        leaves@[j + 1].record_id@,
                    ),
            decreases self.entries@.len() - i,
        {
            assert(self.entries@.take(i + 1).drop_last() =~= self.entries@.take(i as int));
            let e = &self.entries[i];
            if e.updating {
                match (e.info.head_registry_index, &e.info.state.head) {
                    (Some(index), Some(h)) => {
                        leafs.push(index);
                        leaves.push(LogLeaf { log_id: e.log_id.clone(), record_id: h.digest.clone() });
                    },
                    _ => {
                        proof {
                            lemma_package_leaves_stops(self.entries@, i + 1);
                        }
                        return Err(ClientError::PackageLogEmpty { name: e.info.name.clone() });
                    },
                }
            }
            i = i + 1;
        }
        assert(self.entries@.take(self.entries@.len() as int) =~= self.entries@);
        let request = InclusionRequest {
            log_length: self.checkpoint.content.checkpoint.log_length,
            leafs,
        };
        Ok(InclusionStage { sync: self, request, leaves })
    }
}

/// The consistency proof still needed against the previously stored
/// checkpoint, if any, or why the new checkpoint is refused.
pub open spec fn pending_consistency(previous: Option<Checkpoint>, next: Checkpoint) -> Result<
    Option<ConsistencyRequest>,
    ClientError,
> {
    match previous {
        None => Ok(None),
        Some(prev) => match consistency_spec(prev, next) {
            Err(e) => Err(e),
            Ok(ConsistencyCheck::Unchanged) => Ok(None),
            Ok(ConsistencyCheck::Prove(req)) => Ok(Some(req)),
        },
    }
}

impl InclusionStage {
    /// Ends a synchronization whose heads were proved included: checks the
    /// new checkpoint against the previously stored one and prepares the
    /// commit.
    pub fn included(self, previous: Option<Checkpoint>) -> (r: Result<SyncFinish, ClientError>)
        ensures
            pending_consistency(previous, self.sync.checkpoint.content.checkpoint) matches Err(e)
                ==> r == Err::<SyncFinish, ClientError>(e),
            pending_consistency(previous, self.sync.checkpoint.content.checkpoint) matches Ok(c)
                ==> r matches Ok(f) && f.consistency == c && f.commit.operator == self.sync.operator
                && f.commit.checkpoint == self.sync.checkpoint && f.commit.packages@ == committed(
                self.sync.entries@,
                self.sync.checkpoint.content.checkpoint,
            ) && f.commit.updated@ == self.sync.entries@.map_values(|e: SyncEntry| e.updating),
            r is Ok && previous is Some ==> previous->0.log_length
                <= self.sync.checkpoint.content.checkpoint.log_length,
    {
        let consistency = match &previous {
            None => None,
            Some(prev) => match check_consistency(prev, &self.sync.checkpoint.content.checkpoint) {
                Err(e) => {
                    return Err(e);
                },
                Ok(ConsistencyCheck::Unchanged) => None,
                Ok(ConsistencyCheck::Prove(req)) => Some(req),
            },
        };
        let sync = self.sync;
        let target = sync.checkpoint.content.checkpoint.duplicate();
        let ghost orig = sync.entries@;
        let mut rest = sync.entries;
        let mut packages: Vec<PackageInfo> = Vec::new();
        let mut updated: Vec<bool> = Vec::new();
        while rest.len() > 0
            invariant
                packages@.len() == updated@.len(),
                packages@.len() + rest@.len() == orig.len(),
                rest@ == orig.subrange(packages@.len() as int, orig.len() as int),
                target == sync.checkpoint.content.checkpoint,
                forall|i: int|
                    #![trigger packages@[i]]
                    0 <= i < packages@.len() ==> packages@[i] == committed(orig, target)[i],
                forall|i: int|
                    #![trigger updated@[i]]
                    0 <= i < updated@.len() ==> updated@[i] == orig[i].updating,
            decreases rest@.len(),
        {
            let ghost k = packages@.len() as int;
            assert(rest@[0] == orig[k]);
            let e = rest.remove(0);
            assert(rest@ =~= orig.subrange(k + 1, orig.len() as int));
            let mut info = e.info;
            if e.updating {
                info.checkpoint = Some(target.duplicate());
            }
            packages.push(info);
            updated.push(e.updating);
            assert(packages@[k] == committed(orig, target)[k]);
        }
        assert(packages@ =~= committed(orig, target));
        assert(updated@ =~= orig.map_values(|e: SyncEntry| e.updating));
        Ok(
            SyncFinish {
                consistency,
                commit: SyncCommit {
                    operator: sync.operator,
                    packages,
                    updated,
                    checkpoint: sync.checkpoint,
                },
            },
        )
    }
}

/// Synchronizing again to the checkpoint just committed has nothing to do:
/// every committed package is at that checkpoint, those that were updated
/// because they now carry it, the others because they already did.
pub proof fn lemma_commit_is_up_to_date(es: Seq<SyncEntry>, cp: Checkpoint)
    requires
        forall|i: int|
            0 <= i < es.len() ==> (#[trigger] es[i]).updating == !at_checkpoint(es[i].info, cp),
    ensures
        all_at_checkpoint(committed(es, cp), cp),
{
    assert forall|i: int| 0 <= i < committed(es, cp).len() implies at_checkpoint(
        #[trigger] committed(es, cp)[i],
        cp,
    ) by {
        assert(es[i].updating == !at_checkpoint(es[i].info, cp));
    }
}

/// Fetching changes only the cursors of the logs: names, log ids,
/// checkpoints and which logs are updated stay as they were.
pub proof fn lemma_fetch_keeps_marks(
    es: Seq<EntryView>,
    batches: Seq<(String, Vec<PublishedRecord>)>,
)
    requires
        apply_batches(es, batches) is Ok,
    ensures
        ({
            let fs = apply_batches(es, batches)->Ok_0;
            &&& fs.len() == es.len()
            &&& forall|i: int|
                #![trigger fs[i]]
                0 <= i < es.len() ==> fs[i].name == es[i].name && fs[i].log_id == es[i].log_id
                    && fs[i].checkpoint == es[i].checkpoint && fs[i].updating == es[i].updating
        }),
    decreases batches.len(),
{
    if batches.len() > 0 {
        lemma_fetch_keeps_marks(es, batches.drop_last());
        let fs = apply_batches(es, batches.drop_last())->Ok_0;
        if let Some(i) = updating_index(fs, batches.last().0@) {
            lemma_updating_index_bounds(fs, batches.last().0@);
        }
    }
}

proof fn lemma_updating_index_bounds(es: Seq<EntryView>, id: Seq<char>)
    ensures
        updating_index(es, id) matches Some(i) ==> 0 <= i < es.len(),
    decreases es.len(),
{
    if es.len() > 0 {
        lemma_updating_index_bounds(es.drop_last(), id);
    }
}

/// Records at or below the head's registry index are skipped: a log fed
/// again records that it already holds is left as it is, so a pass that
/// was cut short before its commit can be run again from what was stored.
pub proof fn lemma_replay_is_skipped(c: LogCursor, recs: Seq<PublishedRecord>)
    requires
        c.index is Some,
        forall|i: int| 0 <= i < recs.len() ==> (#[trigger] recs[i]).registry_index <= c.index->0,
    ensures
        apply_records(c, recs) == Ok::<LogCursor, ValidationError>(c),
    decreases recs.len(),
{
    if recs.len() > 0 {
        lemma_replay_is_skipped(c, recs.drop_last());
        assert(recs.last() == recs[recs.len() - 1]);
    }
}

} // verus!
