//! Checkpoints of the registry log and the consistency rules between a
//! trusted checkpoint and a newer one.
use crate::encoding::{push_text, push_u64, text_field, u64_bytes};
use crate::error::ClientError;
use vstd::prelude::*;

verus! {

/// A commitment to the registry log: its length and the Merkle roots over
/// the log and over the map of log heads.
#[derive(Debug, PartialEq, Eq)]
pub struct Checkpoint {
    pub log_length: u64,
    pub log_root: String,
    pub map_root: String,
}

/// A checkpoint with the time at which the registry made it.
pub struct TimestampedCheckpoint {
    pub checkpoint: Checkpoint,
    pub timestamp: u64,
}

/// A timestamped checkpoint signed by a key of the operator log.
pub struct SignedCheckpoint {
    pub content: TimestampedCheckpoint,
    pub key_id: String,
    pub signature: Vec<u8>,
}

impl Checkpoint {
    /// Two checkpoints agree on length and both roots.
    pub open spec fn same_as(self, other: Checkpoint) -> bool {
        &&& self.log_length == other.log_length
        &&& self.log_root@ == other.log_root@
        &&& self.map_root@ == other.map_root@
    }

    /// Whether the two checkpoints agree on length and both roots.
    pub fn matches(&self, other: &Checkpoint) -> (r: bool)
        ensures
            r == self.same_as(*other),
    {
        self.log_length == other.log_length && self.log_root == other.log_root && self.map_root
            == other.map_root
    }

    /// A copy of the checkpoint.
    pub fn duplicate(&self) -> (r: Checkpoint)
        ensures
            r == *self,
    {
        Checkpoint {
            log_length: self.log_length,
            log_root: self.log_root.clone(),
            map_root: self.map_root.clone(),
        }
    }
}

impl TimestampedCheckpoint {
    /// A copy of the timestamped checkpoint.
    pub fn duplicate(&self) -> (r: TimestampedCheckpoint)
        ensures
            r == *self,
    {
        TimestampedCheckpoint { checkpoint: self.checkpoint.duplicate(), timestamp: self.timestamp }
    }
}

/// The canonical encoding of a timestamped checkpoint: the bytes that its
/// signature covers.
pub open spec fn checkpoint_message(t: TimestampedCheckpoint) -> Seq<u8> {
    u64_bytes(t.checkpoint.log_length) + text_field(t.checkpoint.log_root@) + text_field(
        t.checkpoint.map_root@,
    ) + u64_bytes(t.timestamp)
}

/// Encodes a timestamped checkpoint canonically.
pub fn encode_checkpoint(t: &TimestampedCheckpoint) -> (r: Vec<u8>)
    ensures
        r@ == checkpoint_message(*t),
{
    let mut out: Vec<u8> = Vec::new();
    push_u64(&mut out, t.checkpoint.log_length);
    push_text(&mut out, t.checkpoint.log_root.as_str());
    push_text(&mut out, t.checkpoint.map_root.as_str());
    push_u64(&mut out, t.timestamp);
    assert(out@ =~= checkpoint_message(*t));
    out
}

/// A request for a proof that the log under root `from_root` (of length
/// `from`) is a prefix of the log under root `to_root` (of length `to`).
#[derive(Debug, PartialEq, Eq)]
pub struct ConsistencyRequest {
    pub from: u64,
    pub to: u64,
    pub from_root: String,
    pub to_root: String,
}

/// What moving from a trusted checkpoint to a new one still needs.
#[derive(Debug, PartialEq, Eq)]
pub enum ConsistencyCheck {
    /// The new checkpoint is the trusted one: nothing to prove.
    Unchanged,
    /// The log grew: its consistency must be proved.
    Prove(ConsistencyRequest),
}

/// How a new checkpoint relates to the trusted one: a shorter log is a
/// rewind, a log of the same length must have the same roots, and a longer
/// one needs a consistency proof between the two log roots.
pub open spec fn consistency_spec(prev: Checkpoint, next: Checkpoint) -> Result<
    ConsistencyCheck,
    ClientError,
> {
    if prev.log_length > next.log_length {
        Err(ClientError::CheckpointLogLengthRewind { from: prev.log_length, to: next.log_length })
    } else if prev.log_length < next.log_length {
        Ok(
            ConsistencyCheck::Prove(
                ConsistencyRequest {
                    from: prev.log_length,
                    to: next.log_length,
                    from_root: prev.log_root,
                    to_root: next.log_root,
                },
            ),
        )
    } else if prev.log_root@ == next.log_root@ && prev.map_root@ == next.map_root@ {
        Ok(ConsistencyCheck::Unchanged)
    } else {
        Err(ClientError::CheckpointChangedLogRootOrMapRoot { log_length: prev.log_length })
    }
}

/// Decides what moving from the trusted checkpoint `prev` to `next` needs.
pub fn check_consistency(prev: &Checkpoint, next: &Checkpoint) -> (r: Result<
    ConsistencyCheck,
    ClientError,
>)
    ensures
        r == consistency_spec(*prev, *next),
{
    if prev.log_length > next.log_length {
        Err(ClientError::CheckpointLogLengthRewind { from: prev.log_length, to: next.log_length })
    } else if prev.log_length < next.log_length {
        Ok(
            ConsistencyCheck::Prove(
                ConsistencyRequest {
                    from: prev.log_length,
                    to: next.log_length,
                    from_root: prev.log_root.clone(),
                    to_root: next.log_root.clone(),
                },
            ),
        )
    } else if prev.log_root == next.log_root && prev.map_root == next.map_root {
        Ok(ConsistencyCheck::Unchanged)
    } else {
        Err(ClientError::CheckpointChangedLogRootOrMapRoot { log_length: prev.log_length })
    }
}

/// A checkpoint accepted after a trusted one never has a shorter log.
pub proof fn lemma_accepted_checkpoint_not_shorter(prev: Checkpoint, next: Checkpoint)
    requires
        consistency_spec(prev, next) is Ok,
    ensures
        next.log_length >= prev.log_length,
{
}

/// Two checkpoints of one log length that differ in a root are refused as
/// equivocation, naming that length.
pub proof fn lemma_equivocation_refused(prev: Checkpoint, next: Checkpoint)
    requires
        prev.log_length == next.log_length,
        prev.log_root@ != next.log_root@ || prev.map_root@ != next.map_root@,
    ensures
        consistency_spec(prev, next) == Err::<ConsistencyCheck, ClientError>(
            ClientError::CheckpointChangedLogRootOrMapRoot { log_length: prev.log_length },
        ),
{
}

/// A checkpoint with a shorter log than the trusted one is refused as a
/// rewind from the trusted length to the new one.
pub proof fn lemma_rewind_refused(prev: Checkpoint, next: Checkpoint)
    requires
        prev.log_length > next.log_length,
    ensures
        consistency_spec(prev, next) == Err::<ConsistencyCheck, ClientError>(
            ClientError::CheckpointLogLengthRewind { from: prev.log_length, to: next.log_length },
        ),
{
}

} // verus!
