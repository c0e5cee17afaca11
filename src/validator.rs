//! Log validators: the state machine that each operator or package log
//! goes through, one validated record at a time.
use crate::error::ValidationError;
use crate::record::{encode_record, record_id, record_id_spec, record_message, Entry, Envelope};
use crate::signing::{key_id, key_id_spec, p256_accepts, verify_signature};
use vstd::prelude::*;

verus! {

/// Which log a validator follows: the operator log or a package log.
#[derive(PartialEq, Eq, Structural, Clone, Copy)]
pub enum LogKind {
    Operator,
    Package,
}

/// The id of the latest validated record of a log and its timestamp.
pub struct Head {
    pub digest: String,
    pub timestamp: u64,
}

/// A key bound in a log, under its id.
pub struct KeyBinding {
    pub key_id: String,
    pub key: Vec<u8>,
}

/// How the operator log declares a namespace.
pub enum NamespaceState {
    /// This registry owns the namespace.
    Defined,
    /// The namespace belongs to another registry.
    Imported { registry: String },
}

/// A namespace declared by the operator log.
pub struct NamespaceEntry {
    pub namespace: String,
    pub state: NamespaceState,
}

/// A released version of a package, with its content digest while it is
/// not yanked.
pub struct ReleaseInfo {
    pub version: String,
    pub content: Option<String>,
}

/// The state of a log: the reduction of every record validated so far.
pub struct LogState {
    pub kind: LogKind,
    pub head: Option<Head>,
    pub keys: Vec<KeyBinding>,
    pub namespaces: Vec<NamespaceEntry>,
    pub releases: Vec<ReleaseInfo>,
}

/// The mathematical value of a log state. Keys are (key id, key); a
/// namespace maps to `None` when defined here and to the owning registry
/// when imported; a release maps to its content digest, `None` once yanked.
pub struct LogView {
    pub kind: LogKind,
    pub head: Option<(Seq<char>, u64)>,
    pub keys: Seq<(Seq<char>, Seq<u8>)>,
    pub namespaces: Seq<(Seq<char>, Option<Seq<char>>)>,
    pub releases: Seq<(Seq<char>, Option<Seq<char>>)>,
}

pub open spec fn head_view(h: Option<Head>) -> Option<(Seq<char>, u64)> {
    match h {
        Some(h) => Some((h.digest@, h.timestamp)),
        None => None,
    }
}

pub open spec fn keys_view(keys: Seq<KeyBinding>) -> Seq<(Seq<char>, Seq<u8>)> {
    keys.map_values(|k: KeyBinding| (k.key_id@, k.key@))
}

pub open spec fn namespace_state_view(s: NamespaceState) -> Option<Seq<char>> {
    match s {
        NamespaceState::Defined => None,
        NamespaceState::Imported { registry } => Some(registry@),
    }
}

pub open spec fn namespaces_view(ns: Seq<NamespaceEntry>) -> Seq<(Seq<char>, Option<Seq<char>>)> {
    ns.map_values(|n: NamespaceEntry| (n.namespace@, namespace_state_view(n.state)))
}

pub open spec fn content_view(c: Option<String>) -> Option<Seq<char>> {
    match c {
        Some(c) => Some(c@),
        None => None,
    }
}

pub open spec fn releases_view(rs: Seq<ReleaseInfo>) -> Seq<(Seq<char>, Option<Seq<char>>)> {
    rs.map_values(|r: ReleaseInfo| (r.version@, content_view(r.content)))
}

impl View for LogState {
    type V = LogView;

    open spec fn view(&self) -> LogView {
        LogView {
            kind: self.kind,
            head: head_view(self.head),
            keys: keys_view(self.keys@),
            namespaces: namespaces_view(self.namespaces@),
            releases: releases_view(self.releases@),
        }
    }
}

/// The first position of `s` whose name is `k`.
pub open spec fn first_index<A>(s: Seq<(Seq<char>, A)>, k: Seq<char>) -> Option<int>
    decreases s.len(),
{
    if s.len() == 0 {
        None
    } else {
        match first_index(s.drop_last(), k) {
            Some(i) => Some(i),
            None => if s.last().0 == k {
                Some(s.len() - 1)
            } else {
                None
            },
        }
    }
}

proof fn lemma_first_index_prefix<A>(s: Seq<(Seq<char>, A)>, k: Seq<char>, n: int)
    requires
        0 <= n <= s.len(),
        first_index(s.take(n), k) is Some,
    ensures
        first_index(s, k) == first_index(s.take(n), k),
    decreases s.len() - n,
{
    if n == s.len() {
        assert(s.take(n) =~= s);
    } else {
        assert(s.drop_last().take(n) =~= s.take(n));
        lemma_first_index_prefix(s.drop_last(), k, n);
    }
}

proof fn lemma_first_index_step<A>(s: Seq<(Seq<char>, A)>, k: Seq<char>, i: int)
    requires
        0 <= i < s.len(),
        first_index(s.take(i), k) is None,
    ensures
        first_index(s.take(i + 1), k) == (if s[i].0 == k {
            Some(i)
        } else {
            None::<int>
        }),
{
    assert(s.take(i + 1).drop_last() =~= s.take(i));
}

proof fn lemma_first_index_bounds<A>(s: Seq<(Seq<char>, A)>, k: Seq<char>)
    ensures
        first_index(s, k) matches Some(i) ==> 0 <= i < s.len() && s[i].0 == k,
    decreases s.len(),
{
    if s.len() > 0 {
        lemma_first_index_bounds(s.drop_last(), k);
    }
}

/// What one entry does to a log's state; `first` holds for the first entry
/// of the first record of the log, the only place where `Init` may stand.
pub open spec fn apply_entry(v: LogView, e: Entry, first: bool) -> Result<LogView, ValidationError> {
    match e {
        Entry::Init { key } => if first {
            Ok(LogView { keys: v.keys.push((key_id_spec(key@), key@)), ..v })
        } else {
            Err(ValidationError::InitNotFirst)
        },
        Entry::GrantKey { key } => if first_index(v.keys, key_id_spec(key@)) is Some {
            Ok(v)
        } else {
            Ok(LogView { keys: v.keys.push((key_id_spec(key@), key@)), ..v })
        },
        Entry::RevokeKey { key_id } => match first_index(v.keys, key_id@) {
            Some(i) => Ok(LogView { keys: v.keys.remove(i), ..v }),
            None => Err(ValidationError::KeyNotGranted { key_id }),
        },
        Entry::Release { version, content } => if v.kind != LogKind::Package {
            Err(ValidationError::EntryNotAllowed)
        } else {
            match first_index(v.releases, version@) {
                Some(i) => if v.releases[i].1 is Some {
                    Err(ValidationError::ReleaseExists { version })
                } else {
                    Ok(LogView { releases: v.releases.update(i, (version@, Some(content@))), ..v })
                },
                None => Ok(LogView { releases: v.releases.push((version@, Some(content@))), ..v }),
            }
        },
        Entry::Yank { version } => if v.kind != LogKind::Package {
            Err(ValidationError::EntryNotAllowed)
        } else {
            match first_index(v.releases, version@) {
                Some(i) => if v.releases[i].1 is Some {
                    Ok(LogView { releases: v.releases.update(i, (version@, None)), ..v })
                } else {
                    Err(ValidationError::ReleaseNotFound { version })
                },
                None => Err(ValidationError::ReleaseNotFound { version }),
            }
        },
        Entry::DefineNamespace { namespace } => if v.kind != LogKind::Operator {
            Err(ValidationError::EntryNotAllowed)
        } else if first_index(v.namespaces, namespace@) is Some {
            Err(ValidationError::NamespaceExists { namespace })
        } else {
            Ok(LogView { namespaces: v.namespaces.push((namespace@, None)), ..v })
        },
        Entry::ImportNamespace { namespace, registry } => if v.kind != LogKind::Operator {
            Err(ValidationError::EntryNotAllowed)
        } else if first_index(v.namespaces, namespace@) is Some {
            Err(ValidationError::NamespaceExists { namespace })
        } else {
            Ok(LogView { namespaces: v.namespaces.push((namespace@, Some(registry@))), ..v })
        },
    }
}

/// The entries applied in order; the first failure stops them.
pub open spec fn apply_entries(v: LogView, es: Seq<Entry>, fresh: bool) -> Result<
    LogView,
    ValidationError,
>
    decreases es.len(),
{
    if es.len() == 0 {
        Ok(v)
    } else {
        match apply_entries(v, es.drop_last(), fresh) {
            Ok(w) => apply_entry(w, es.last(), fresh && es.len() == 1),
            Err(e) => Err(e),
        }
    }
}

/// The key that must have signed the envelope: for an empty log the key of
/// its init entry, whose id the envelope must name; otherwise the key bound
/// under the envelope's key id.
pub open spec fn signing_key(v: LogView, env: Envelope) -> Option<Seq<u8>> {
    if v.head is None {
        match env.record.entries@[0] {
            Entry::Init { key } => if key_id_spec(key@) == env.key_id@ {
                Some(key@)
            } else {
                None
            },
            _ => None,
        }
    } else {
        match first_index(v.keys, env.key_id@) {
            Some(i) => Some(v.keys[i].1),
            None => None,
        }
    }
}

/// The first record of a log has no `prev`; any later one points at the head.
pub open spec fn prev_matches(head: Option<(Seq<char>, u64)>, prev: Option<String>) -> bool {
    match (head, prev) {
        (None, None) => true,
        (Some(h), Some(p)) => p@ == h.0,
        _ => false,
    }
}

/// The result of validating an envelope against a log state: the state
/// that follows, or why the record is refused. The checks run in order:
/// an empty log must start with an init entry; the signing key must be
/// known and the signature valid; `prev` must point at the head; the
/// timestamp must not go back; then each entry's own rules.
#[verifier::opaque]
pub open spec fn validate_spec(v: LogView, env: Envelope) -> Result<LogView, ValidationError> {
    let entries = env.record.entries@;
    if v.head is None && (entries.len() == 0 || !(entries[0] is Init)) {
        Err(ValidationError::FirstEntryIsNotInit)
    } else {
        match signing_key(v, env) {
            None => Err(ValidationError::UnknownKey { key_id: env.key_id }),
            Some(key) => if !p256_accepts(key, record_message(env.record), env.signature@) {
                Err(ValidationError::InvalidSignature)
            } else if !prev_matches(v.head, env.record.prev) {
                Err(ValidationError::PrevMismatch)
            } else if v.head is Some && env.record.timestamp < v.head.unwrap().1 {
                Err(ValidationError::TimestampLowerThanPrevious)
            } else {
                match apply_entries(v, entries, v.head is None) {
                    Ok(w) => Ok(
                        LogView { head: Some((record_id_spec(env), env.record.timestamp)), ..w },
                    ),
                    Err(e) => Err(e),
                }
            },
        }
    }
}

fn copy_bytes(v: &Vec<u8>) -> (r: Vec<u8>)
    ensures
        r@ == v@,
{
    let mut r: Vec<u8> = Vec::new();
    let mut i: usize = 0;
    while i < v.len()
        invariant
            i <= v@.len(),
            r@ == v@.take(i as int),
        decreases v@.len() - i,
    {
        r.push(v[i]);
        i = i + 1;
        assert(r@ =~= v@.take(i as int));
    }
    assert(v@.take(v@.len() as int) =~= v@);
    r
}

fn copy_keys(v: &Vec<KeyBinding>) -> (r: Vec<KeyBinding>)
    ensures
        keys_view(r@) == keys_view(v@),
{
    let mut r: Vec<KeyBinding> = Vec::new();
    let mut i: usize = 0;
    while i < v.len()
        invariant
            i <= v@.len(),
            r@.len() == i,
            forall|j: int|
                #![trigger r@[j]]
                0 <= j < i ==> r@[j].key_id@ == v@[j].key_id@ && r@[j].key@ == v@[j].key@,
        decreases v@.len() - i,
    {
        r.push(KeyBinding { key_id: v[i].key_id.clone(), key: copy_bytes(&v[i].key) });
        i = i + 1;
    }
    assert(keys_view(r@) =~= keys_view(v@));
    r
}

fn copy_namespace_state(s: &NamespaceState) -> (r: NamespaceState)
    ensures
        r == *s,
{
    match s {
        NamespaceState::Defined => NamespaceState::Defined,
        NamespaceState::Imported { registry } => NamespaceState::Imported { registry: registry.clone() },
    }
}

fn copy_namespaces(v: &Vec<NamespaceEntry>) -> (r: Vec<NamespaceEntry>)
    ensures
        r@ == v@,
{
    let mut r: Vec<NamespaceEntry> = Vec::new();
    let mut i: usize = 0;
    while i < v.len()
        invariant
            i <= v@.len(),
            r@ == v@.take(i as int),
        decreases v@.len() - i,
    {
        r.push(
            NamespaceEntry {
                namespace: v[i].namespace.clone(),
                state: copy_namespace_state(&v[i].state),
            },
        );
        i = i + 1;
        assert(r@ =~= v@.take(i as int));
    }
    assert(v@.take(v@.len() as int) =~= v@);
    r
}

fn copy_releases(v: &Vec<ReleaseInfo>) -> (r: Vec<ReleaseInfo>)
    ensures
        r@ == v@,
{
    let mut r: Vec<ReleaseInfo> = Vec::new();
    let mut i: usize = 0;
    while i < v.len()
        invariant
            i <= v@.len(),
            r@ == v@.take(i as int),
        decreases v@.len() - i,
    {
        let content = match &v[i].content {
            Some(c) => Some(c.clone()),
            None => None,
        };
        r.push(ReleaseInfo { version: v[i].version.clone(), content });
        i = i + 1;
        assert(r@ =~= v@.take(i as int));
    }
    assert(v@.take(v@.len() as int) =~= v@);
    r
}

fn find_key(keys: &Vec<KeyBinding>, id: &String) -> (r: Option<usize>)
    ensures
        r matches Some(i) ==> first_index(keys_view(keys@), id@) == Some(i as int) && i
            < keys@.len(),
        r is None ==> first_index(keys_view(keys@), id@) is None,
{
    let ghost s = keys_view(keys@);
    let mut i: usize = 0;
    while i < keys.len()
        invariant
            i <= keys@.len(),
            s == keys_view(keys@),
            first_index(s.take(i as int), id@) is None,
        decreases keys@.len() - i,
    {
        proof {
            lemma_first_index_step(s, id@, i as int);
        }
        if keys[i].key_id == *id {
            proof {
                lemma_first_index_prefix(s, id@, i + 1);
            }
            return Some(i);
        }
        i = i + 1;
    }
    assert(s.take(s.len() as int) =~= s);
    None
}

fn find_namespace(ns: &Vec<NamespaceEntry>, name: &String) -> (r: Option<usize>)
    ensures
        r matches Some(i) ==> first_index(namespaces_view(ns@), name@) == Some(i as int) && i
            < ns@.len(),
        r is None ==> first_index(namespaces_view(ns@), name@) is None,
{
    let ghost s = namespaces_view(ns@);
    let mut i: usize = 0;
    while i < ns.len()
        invariant
            i <= ns@.len(),
            s == namespaces_view(ns@),
            first_index(s.take(i as int), name@) is None,
        decreases ns@.len() - i,
    {
        proof {
            lemma_first_index_step(s, name@, i as int);
        }
        if ns[i].namespace == *name {
            proof {
                lemma_first_index_prefix(s, name@, i + 1);
            }
            return Some(i);
        }
        i = i + 1;
    }
    assert(s.take(s.len() as int) =~= s);
    None
}

fn find_release(rs: &Vec<ReleaseInfo>, version: &String) -> (r: Option<usize>)
    ensures
        r matches Some(i) ==> first_index(releases_view(rs@), version@) == Some(i as int) && i
            < rs@.len(),
        r is None ==> first_index(releases_view(rs@), version@) is None,
{
    let ghost s = releases_view(rs@);
    let mut i: usize = 0;
    while i < rs.len()
        invariant
            i <= rs@.len(),
            s == releases_view(rs@),
            first_index(s.take(i as int), version@) is None,
        decreases rs@.len() - i,
    {
        proof {
            lemma_first_index_step(s, version@, i as int);
        }
        if rs[i].version == *version {
            proof {
                lemma_first_index_prefix(s, version@, i + 1);
            }
            return Some(i);
        }
        i = i + 1;
    }
    assert(s.take(s.len() as int) =~= s);
    None
}

impl LogState {
    /// The value of a log with no validated record.
    pub open spec fn new_spec(kind: LogKind) -> LogView {
        LogView {
            kind,
            head: None,
            keys: Seq::empty(),
            namespaces: Seq::empty(),
            releases: Seq::empty(),
        }
    }

    /// The state of a log with no validated record.
    pub fn new(kind: LogKind) -> (r: LogState)
        ensures
            r@ == LogState::new_spec(kind),
    {
        let r = LogState {
            kind,
            head: None,
            keys: Vec::new(),
            namespaces: Vec::new(),
            releases: Vec::new(),
        };
        assert(r@.keys =~= Seq::empty());
        assert(r@.namespaces =~= Seq::empty());
        assert(r@.releases =~= Seq::empty());
        r
    }

    /// The latest validated record, if any.
    pub fn head(&self) -> (r: &Option<Head>)
        ensures
            *r == self.head,
    {
        &self.head
    }

    /// The key bound under `key_id`, if any.
    pub fn public_key(&self, key_id: &String) -> (r: Option<&Vec<u8>>)
        ensures
            first_index(self@.keys, key_id@) matches Some(i) ==> r is Some && r->0@
                == self@.keys[i].1,
            first_index(self@.keys, key_id@) is None ==> r is None,
    {
        match find_key(&self.keys, key_id) {
            Some(i) => Some(&self.keys[i].key),
            None => None,
        }
    }

    /// How the operator log declares `namespace`, if it does.
    pub fn namespace_state(&self, namespace: &String) -> (r: Option<&NamespaceState>)
        ensures
            first_index(self@.namespaces, namespace@) matches Some(i) ==> r is Some
                && namespace_state_view(*r->0) == self@.namespaces[i].1,
            first_index(self@.namespaces, namespace@) is None ==> r is None,
    {
        match find_namespace(&self.namespaces, namespace) {
            Some(i) => Some(&self.namespaces[i].state),
            None => None,
        }
    }

    /// The release of `version`, if the log has one (yanked or not).
    pub fn release(&self, version: &String) -> (r: Option<&ReleaseInfo>)
        ensures
            first_index(self@.releases, version@) matches Some(i) ==> r is Some && r->0.version@
                == version@ && content_view(r->0.content) == self@.releases[i].1,
            first_index(self@.releases, version@) is None ==> r is None,
    {
        proof {
            lemma_first_index_bounds(self@.releases, version@);
        }
        match find_release(&self.releases, version) {
            Some(i) => Some(&self.releases[i]),
            None => None,
        }
    }

    fn add_key(&mut self, key: &Vec<u8>)
        ensures
            final(self)@ == (LogView {
                keys: old(self)@.keys.push((key_id_spec(key@), key@)),
                ..old(self)@
            }),
    {
        let binding = KeyBinding { key_id: key_id(key.as_slice()), key: copy_bytes(key) };
        self.keys.push(binding);
        assert(self@.keys =~= old(self)@.keys.push((key_id_spec(key@), key@)));
    }

    fn apply(&mut self, e: &Entry, first: bool) -> (r: Result<(), ValidationError>)
        ensures
            apply_entry(old(self)@, *e, first) matches Ok(w) ==> r is Ok && final(self)@ == w,
            apply_entry(old(self)@, *e, first) matches Err(err) ==> r == Err::<(), ValidationError>(err),
    {
        proof {
            lemma_first_index_bounds(self@.keys, e->RevokeKey_key_id@);
            lemma_first_index_bounds(self@.releases, e->Release_version@);
            lemma_first_index_bounds(self@.releases, e->Yank_version@);
        }
        match e {
            Entry::Init { key } => {
                if !first {
                    return Err(ValidationError::InitNotFirst);
                }
                self.add_key(key);
                Ok(())
            },
            Entry::GrantKey { key } => {
                let id = key_id(key.as_slice());
                if find_key(&self.keys, &id).is_none() {
                    self.add_key(key);
                }
                Ok(())
            },
            Entry::RevokeKey { key_id } => {
                match find_key(&self.keys, key_id) {
                    Some(i) => {
                        self.keys.remove(i);
                        assert(self@.keys =~= old(self)@.keys.remove(i as int));
                        Ok(())
                    },
                    None => Err(ValidationError::KeyNotGranted { key_id: key_id.clone() }),
                }
            },
            Entry::Release { version, content } => {
                if self.kind != LogKind::Package {
                    return Err(ValidationError::EntryNotAllowed);
                }
                match find_release(&self.releases, version) {
                    Some(i) => {
                        if self.releases[i].content.is_some() {
                            return Err(ValidationError::ReleaseExists { version: version.clone() });
                        }
                        self.releases.set(
                            i,
                            ReleaseInfo { version: version.clone(), content: Some(content.clone()) },
                        );
                        assert(self@.releases =~= old(self)@.releases.update(
                            i as int,
                            (version@, Some(content@)),
                        ));
                        Ok(())
                    },
                    None => {
                        self.releases.push(
                            ReleaseInfo { version: version.clone(), content: Some(content.clone()) },
                        );
                        assert(self@.releases =~= old(self)@.releases.push(
                            (version@, Some(content@)),
                        ));
                        Ok(())
                    },
                }
            },
            Entry::Yank { version } => {
                if self.kind != LogKind::Package {
                    return Err(ValidationError::EntryNotAllowed);
                }
                match find_release(&self.releases, version) {
                    Some(i) => {
                        if self.releases[i].content.is_none() {
                            return Err(ValidationError::ReleaseNotFound { version: version.clone() });
                        }
                        self.releases.set(i, ReleaseInfo { version: version.clone(), content: None });
                        assert(self@.releases =~= old(self)@.releases.update(
                            i as int,
                            (version@, None),
                        ));
                        Ok(())
                    },
                    None => Err(ValidationError::ReleaseNotFound { version: version.clone() }),
                }
            },
            Entry::DefineNamespace { namespace } => {
                if self.kind != LogKind::Operator {
                    return Err(ValidationError::EntryNotAllowed);
                }
                if find_namespace(&self.namespaces, namespace).is_some() {
                    return Err(ValidationError::NamespaceExists { namespace: namespace.clone() });
                }
                self.namespaces.push(
                    NamespaceEntry { namespace: namespace.clone(), state: NamespaceState::Defined },
                );
                assert(self@.namespaces =~= old(self)@.namespaces.push((namespace@, None)));
                Ok(())
            },
            Entry::ImportNamespace { namespace, registry } => {
                if self.kind != LogKind::Operator {
                    return Err(ValidationError::EntryNotAllowed);
                }
                if find_namespace(&self.namespaces, namespace).is_some() {
                    return Err(ValidationError::NamespaceExists { namespace: namespace.clone() });
                }
                self.namespaces.push(
                    NamespaceEntry {
                        namespace: namespace.clone(),
                        state: NamespaceState::Imported { registry: registry.clone() },
                    },
                );
                assert(self@.namespaces =~= old(self)@.namespaces.push(
                    (namespace@, Some(registry@)),
                ));
                Ok(())
            },
        }
    }

    /// Validates a record against the log. On success the state advances
    /// to the record; on failure it is left as it was.
    pub fn validate(&mut self, env: &Envelope) -> (r: Result<(), ValidationError>)
        ensures
            validate_spec(old(self)@, *env) matches Ok(w) ==> r is Ok && final(self)@ == w,
            validate_spec(old(self)@, *env) matches Err(e) ==> r == Err::<(), ValidationError>(e)
                && *final(self) == *old(self),
    {
        proof {
            reveal(validate_spec);
        }
        let entries = &env.record.entries;
        let fresh = self.head.is_none();
        if fresh {
            if entries.len() == 0 {
                return Err(ValidationError::FirstEntryIsNotInit);
            }
        }
        let key: &Vec<u8> = if fresh {
            match &entries[0] {
                Entry::Init { key } => {
                    if key_id(key.as_slice()) == env.key_id {
                        key
                    } else {
                        return Err(ValidationError::UnknownKey { key_id: env.key_id.clone() });
                    }
                },
                _ => {
                    return Err(ValidationError::FirstEntryIsNotInit);
                },
            }
        } else {
            match self.public_key(&env.key_id) {
                Some(k) => k,
                None => {
                    return Err(ValidationError::UnknownKey { key_id: env.key_id.clone() });
                },
            }
        };
        let message = encode_record(&env.record);
        if !verify_signature(key.as_slice(), message.as_slice(), env.signature.as_slice()) {
            return Err(ValidationError::InvalidSignature);
        }
        let prev_ok = match (&self.head, &env.record.prev) {
            (None, None) => true,
            (Some(h), Some(p)) => *p == h.digest,
            _ => false,
        };
        if !prev_ok {
            return Err(ValidationError::PrevMismatch);
        }
        match &self.head {
            Some(h) => {
                if env.record.timestamp < h.timestamp {
                    return Err(ValidationError::TimestampLowerThanPrevious);
                }
            },
            None => {},
        }
        let mut next = LogState {
            kind: self.kind,
            head: copy_head(&self.head),
            keys: copy_keys(&self.keys),
            namespaces: copy_namespaces(&self.namespaces),
            releases: copy_releases(&self.releases),
        };
        assert(apply_entries(self@, entries@.take(0), fresh) == Ok::<LogView, ValidationError>(self@));
        let ghost finished = match apply_entries(self@, entries@, fresh) {
            Ok(w) => Ok(LogView { head: Some((record_id_spec(*env), env.record.timestamp)), ..w }),
            Err(e) => Err(e),
        };
        assert(validate_spec(self@, *env) == finished);
        let mut j: usize = 0;
        while j < entries.len()
            invariant
                j <= entries@.len(),
                entries == &env.record.entries,
                fresh == (self.head is None),
                validate_spec(self@, *env) == finished,
                finished == match apply_entries(self@, entries@, fresh) {
                    Ok(w) => Ok(LogView { head: Some((record_id_spec(*env), env.record.timestamp)), ..w }),
                    Err(e) => Err(e),
                },
                apply_entries(self@, entries@.take(j as int), fresh) == Ok::<
                    LogView,
                    ValidationError,
                >(next@),
            decreases entries@.len() - j,
        {
            assert(entries@.take(j + 1).drop_last() =~= entries@.take(j as int));
            assert(entries@.take(j + 1).last() == entries@[j as int]);
            let ghost before = next@;
            let step = next.apply(&entries[j], fresh && j == 0);
            match step {
                Ok(()) => {},
                Err(e) => {
                    proof {
                        lemma_apply_entries_stops(self@, entries@, fresh, j + 1);
                    }

                    return Err(e);
                },
            }
            j = j + 1;
        }
        assert(entries@.take(entries@.len() as int) =~= entries@);
        next.head = Some(Head { digest: record_id(env), timestamp: env.record.timestamp });
        *self = next;
        Ok(())
    }
}

fn copy_head(h: &Option<Head>) -> (r: Option<Head>)
    ensures
        r == *h,
{
    match h {
        Some(h) => Some(Head { digest: h.digest.clone(), timestamp: h.timestamp }),
        None => None,
    }
}

proof fn lemma_apply_entries_stops(v: LogView, es: Seq<Entry>, fresh: bool, k: int)
    requires
        0 <= k <= es.len(),
        apply_entries(v, es.take(k), fresh) is Err,
    ensures
        apply_entries(v, es, fresh) == apply_entries(v, es.take(k), fresh),
    decreases es.len() - k,
{
    if k == es.len() {
        assert(es.take(k) =~= es);
    } else {
        assert(es.drop_last().take(k) =~= es.take(k));
        lemma_apply_entries_stops(v, es.drop_last(), fresh, k);
    }
}

} // verus!
