//! Log records, their signed envelopes, and the canonical encoding from
//! which signatures and record ids are computed.
use crate::digest::{sha256_hex, sha256_text};
use crate::encoding::{field, push_field, push_text, push_u64, text_field, u64_bytes};
use vstd::prelude::*;

verus! {

/// One entry of a log record.
pub enum Entry {
    /// Starts a log and binds its first key.
    Init { key: Vec<u8> },
    /// Binds a further key.
    GrantKey { key: Vec<u8> },
    /// Unbinds a key.
    RevokeKey { key_id: String },
    /// Releases a version of a package with the digest of its content.
    Release { version: String, content: String },
    /// Yanks a released version of a package.
    Yank { version: String },
    /// Declares that this registry owns a namespace.
    DefineNamespace { namespace: String },
    /// Declares that another registry owns a namespace.
    ImportNamespace { namespace: String, registry: String },
}

/// A record of a log: the id of the previous record of the same log (none
/// for the first), a timestamp, and entries.
pub struct Record {
    pub prev: Option<String>,
    pub timestamp: u64,
    pub entries: Vec<Entry>,
}

/// A record with the id of the key that signed it and the signature over
/// its canonical encoding.
pub struct Envelope {
    pub record: Record,
    pub key_id: String,
    pub signature: Vec<u8>,
}

/// The canonical encoding of one entry: a tag byte, then its fields.
pub open spec fn entry_bytes(e: Entry) -> Seq<u8> {
    match e {
        Entry::Init { key } => seq![0u8] + field(key@),
        Entry::GrantKey { key } => seq![1u8] + field(key@),
        Entry::RevokeKey { key_id } => seq![2u8] + text_field(key_id@),
        Entry::Release { version, content } => seq![3u8] + text_field(version@) + text_field(
            content@,
        ),
        Entry::Yank { version } => seq![4u8] + text_field(version@),
        Entry::DefineNamespace { namespace } => seq![5u8] + text_field(namespace@),
        Entry::ImportNamespace { namespace, registry } => seq![6u8] + text_field(namespace@)
            + text_field(registry@),
    }
}

/// The encodings of the entries, one after the other.
pub open spec fn entries_bytes(es: Seq<Entry>) -> Seq<u8>
    decreases es.len(),
{
    if es.len() == 0 {
        Seq::empty()
    } else {
        entries_bytes(es.drop_last()) + entry_bytes(es.last())
    }
}

/// The canonical encoding of a record: the bytes that its signature covers.
pub open spec fn record_message(r: Record) -> Seq<u8> {
    (match r.prev {
        None => seq![0u8],
        Some(p) => seq![1u8] + text_field(p@),
    }) + u64_bytes(r.timestamp) + u64_bytes(r.entries@.len() as u64) + entries_bytes(r.entries@)
}

/// The canonical encoding of an envelope.
#[verifier::opaque]
pub open spec fn envelope_bytes(e: Envelope) -> Seq<u8> {
    field(record_message(e.record)) + text_field(e.key_id@) + field(e.signature@)
}

/// The id of a record: the digest of its envelope's encoding.
pub open spec fn record_id_spec(e: Envelope) -> Seq<char> {
    sha256_text(envelope_bytes(e))
}

/// Appends the canonical encoding of one entry.
fn push_entry(out: &mut Vec<u8>, e: &Entry)
    ensures
        final(out)@ == old(out)@ + entry_bytes(*e),
{
    match e {
        Entry::Init { key } => {
            out.push(0u8);
            push_field(out, key.as_slice());
        },
        Entry::GrantKey { key } => {
            out.push(1u8);
            push_field(out, key.as_slice());
        },
        Entry::RevokeKey { key_id } => {
            out.push(2u8);
            push_text(out, key_id.as_str());
        },
        Entry::Release { version, content } => {
            out.push(3u8);
            push_text(out, version.as_str());
            push_text(out, content.as_str());
        },
        Entry::Yank { version } => {
            out.push(4u8);
            push_text(out, version.as_str());
        },
        Entry::DefineNamespace { namespace } => {
            out.push(5u8);
            push_text(out, namespace.as_str());
        },
        Entry::ImportNamespace { namespace, registry } => {
            out.push(6u8);
            push_text(out, namespace.as_str());
            push_text(out, registry.as_str());
        },
    }
    assert(out@ =~= old(out)@ + entry_bytes(*e));
}

/// Encodes a record canonically.
pub fn encode_record(r: &Record) -> (out: Vec<u8>)
    ensures
        out@ == record_message(*r),
{
    let mut out: Vec<u8> = Vec::new();
    match &r.prev {
        None => out.push(0u8),
        Some(p) => {
            out.push(1u8);
            push_text(&mut out, p.as_str());
        },
    }
    push_u64(&mut out, r.timestamp);
    push_u64(&mut out, r.entries.len() as u64);
    let ghost start = out@;
    let mut i: usize = 0;
    while i < r.entries.len()
        invariant
            i <= r.entries@.len(),
            out@ == start + entries_bytes(r.entries@.take(i as int)),
        decreases r.entries@.len() - i,
    {
        push_entry(&mut out, &r.entries[i]);
        assert(r.entries@.take(i + 1).drop_last() =~= r.entries@.take(i as int));
        i = i + 1;
        assert(out@ =~= start + entries_bytes(r.entries@.take(i as int)));
    }
    assert(r.entries@.take(r.entries@.len() as int) =~= r.entries@);
    assert(out@ =~= record_message(*r));
    out
}

/// Encodes an envelope canonically.
pub fn encode_envelope(e: &Envelope) -> (out: Vec<u8>)
    ensures
        out@ == envelope_bytes(*e),
{
    proof {
        reveal(envelope_bytes);
    }
    let message = encode_record(&e.record);
    let mut out: Vec<u8> = Vec::new();
    push_field(&mut out, message.as_slice());
    push_text(&mut out, e.key_id.as_str());
    push_field(&mut out, e.signature.as_slice());
    assert(out@ =~= envelope_bytes(*e));
    out
}

/// Computes the id of the record in an envelope.
pub fn record_id(e: &Envelope) -> (r: String)
    ensures
        r@ == record_id_spec(*e),
{
    let bytes = encode_envelope(e);
    sha256_hex(bytes.as_slice())
}

fn copy_bytes(v: &Vec<u8>) -> (r: Vec<u8>)
    ensures
        r@ == v@,
{
    let mut r: Vec<u8> = Vec::new();
    let mut i: usize = 0;
    while i < v.len()
        invariant
            i <= v@.len(),
            r@ == v@.take(i as int),
        decreases v@.len() - i,
    {
        r.push(v[i]);
        i = i + 1;
        assert(r@ =~= v@.take(i as int));
    }
    assert(v@.take(v@.len() as int) =~= v@);
    r
}

fn copy_entry(e: &Entry) -> (r: Entry)
    ensures
        entry_bytes(r) == entry_bytes(*e),
{
    match e {
        Entry::Init { key } => Entry::Init { key: copy_bytes(key) },
        Entry::GrantKey { key } => Entry::GrantKey { key: copy_bytes(key) },
        Entry::RevokeKey { key_id } => Entry::RevokeKey { key_id: key_id.clone() },
        Entry::Release { version, content } => Entry::Release {
            version: version.clone(),
            content: content.clone(),
        },
        Entry::Yank { version } => Entry::Yank { version: version.clone() },
        Entry::DefineNamespace { namespace } => Entry::DefineNamespace {
            namespace: namespace.clone(),
        },
        Entry::ImportNamespace { namespace, registry } => Entry::ImportNamespace {
            namespace: namespace.clone(),
            registry: registry.clone(),
        },
    }
}

/// A copy of an envelope: its encoding, and so its id, are those of `e`.
pub fn copy_envelope(e: &Envelope) -> (r: Envelope)
    ensures
        envelope_bytes(r) == envelope_bytes(*e),
        r.record.entries@.len() == e.record.entries@.len(),
{
    proof {
        reveal(envelope_bytes);
    }
    let mut entries: Vec<Entry> = Vec::new();
    let mut i: usize = 0;
    while i < e.record.entries.len()
        invariant
            i <= e.record.entries@.len(),
            entries@.len() == i,
            entries_bytes(entries@) == entries_bytes(e.record.entries@.take(i as int)),
        decreases e.record.entries@.len() - i,
    {
        let c = copy_entry(&e.record.entries[i]);
        let ghost before = entries@;
        entries.push(c);
        assert(entries@.drop_last() =~= before);
        assert(e.record.entries@.take(i + 1).drop_last() =~= e.record.entries@.take(i as int));
        i = i + 1;
    }
    assert(e.record.entries@.take(e.record.entries@.len() as int) =~= e.record.entries@);
    let prev = match &e.record.prev {
        Some(p) => Some(p.clone()),
        None => None,
    };
    Envelope {
        record: Record { prev, timestamp: e.record.timestamp, entries },
        key_id: e.key_id.clone(),
        signature: copy_bytes(&e.signature),
    }
}

} // verus!
