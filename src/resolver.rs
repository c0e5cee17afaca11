//! Which registry owns a package namespace: the operator log's import
//! first, then the deepest local `.warg.json` override, then the client's
//! own namespace map.
use crate::error::ClientError;
use crate::validator::{first_index, LogState, LogView};
use vstd::prelude::*;

verus! {

/// The namespace of a package name: the characters before its first `:`
/// (all of them when there is none).
pub open spec fn namespace_spec(s: Seq<char>) -> Seq<char>
    decreases s.len(),
{
    if s.len() == 0 {
        s
    } else if s[0] == ':' {
        Seq::empty()
    } else {
        seq![s[0]] + namespace_spec(s.drop_first())
    }
}

proof fn lemma_namespace_is_prefix(s: Seq<char>, i: int)
    requires
        0 <= i <= s.len(),
        forall|j: int| 0 <= j < i ==> s[j] != ':',
        i == s.len() || s[i] == ':',
    ensures
        namespace_spec(s) == s.take(i),
    decreases s.len(),
{
    if s.len() == 0 || i == 0 {
        assert(s.take(i) =~= Seq::<char>::empty());
    } else {
        lemma_namespace_is_prefix(s.drop_first(), i - 1);
        assert(s.take(i) =~= seq![s[0]] + s.drop_first().take(i - 1));
    }
}

/// The namespace of a package name.
pub fn namespace_of(name: &str) -> (r: String)
    ensures
        r@ == namespace_spec(name@),
{
    let n = name.unicode_len();
    let mut i: usize = 0;
    while i < n && name.get_char(i) != ':'
        invariant
            i <= n,
            n == name@.len(),
            forall|j: int| 0 <= j < i ==> name@[j] != ':',
        decreases n - i,
    {
        i = i + 1;
    }
    proof {
        lemma_namespace_is_prefix(name@, i as int);
    }
    name.substring_char(0, i).to_owned()
}

/// The mapping that a flat JSON object of strings holds, as (key, value)
/// pairs in ascending key order, or `None` when the bytes are not such an
/// object.
pub uninterp spec fn flat_json_map(bytes: Seq<u8>) -> Option<Seq<(Seq<char>, Seq<char>)>>;

pub open spec fn pairs_view(m: Seq<(String, String)>) -> Seq<(Seq<char>, Seq<char>)> {
    m.map_values(|p: (String, String)| (p.0@, p.1@))
}

/// Relies on `serde_json::from_slice` into a `BTreeMap<String, String>`:
/// the result depends on the bytes alone, and a map iterates its entries in
/// ascending key order.
#[verifier::external_body]
fn parse_flat_json_map(bytes: &[u8]) -> (r: Option<Vec<(String, String)>>)
    ensures
        r is Some <==> flat_json_map(bytes@) is Some,
        r is Some ==> pairs_view(r->0@) == flat_json_map(bytes@)->0,
{
    let map = serde_json::from_slice::<std::collections::BTreeMap<String, String>>(bytes).ok()?;
    Some(map.into_iter().collect())
}

/// The value of the first pair whose key is `k`.
pub open spec fn lookup(m: Seq<(Seq<char>, Seq<char>)>, k: Seq<char>) -> Option<Seq<char>> {
    match first_index(m, k) {
        Some(i) => Some(m[i].1),
        None => None,
    }
}

/// What a walk of the working directory found as the local namespace
/// config: nothing, a file that could not be read, or the file's bytes.
pub enum LocalConfig {
    Missing,
    Unreadable,
    Contents(Vec<u8>),
}

/// The owner of namespace `ns`. Where the operator log is present it alone
/// decides the first step (an import names the owner; a namespace defined
/// here, or not declared, leaves it open); where it is absent the local
/// config decides it. What is still open the client map decides.
pub open spec fn resolve_spec(
    ns: Seq<char>,
    operator: Option<LogView>,
    local: LocalConfig,
    client: Option<Seq<(Seq<char>, Seq<char>)>>,
) -> Result<Option<Seq<char>>, ClientError> {
    let first: Result<Option<Seq<char>>, ClientError> = match operator {
        Some(op) => Ok(
            match first_index(op.namespaces, ns) {
                Some(i) => op.namespaces[i].1,
                None => None,
            },
        ),
        None => match local {
            LocalConfig::Missing => Ok(None),
            LocalConfig::Unreadable => Err(ClientError::NoNamespaceConfig),
            LocalConfig::Contents(b) => match flat_json_map(b@) {
                None => Err(ClientError::InvalidLocalNamespaceConfig),
                Some(m) => Ok(lookup(m, ns)),
            },
        },
    };
    match first {
        Err(e) => Err(e),
        Ok(Some(d)) => Ok(Some(d)),
        Ok(None) => Ok(
            match client {
                Some(m) => lookup(m, ns),
                None => None,
            },
        ),
    }
}

pub open spec fn domain_view(r: Result<Option<String>, ClientError>) -> Result<
    Option<Seq<char>>,
    ClientError,
> {
    match r {
        Ok(Some(d)) => Ok(Some(d@)),
        Ok(None) => Ok(None),
        Err(e) => Err(e),
    }
}

pub open spec fn optional_pairs_view(m: Option<Vec<(String, String)>>) -> Option<
    Seq<(Seq<char>, Seq<char>)>,
> {
    match m {
        Some(m) => Some(pairs_view(m@)),
        None => None,
    }
}

pub open spec fn optional_state_view(s: Option<&LogState>) -> Option<LogView> {
    match s {
        Some(s) => Some(s@),
        None => None,
    }
}

pub(crate) fn lookup_pairs(m: &Vec<(String, String)>, k: &String) -> (r: Option<String>)
    ensures
        lookup(pairs_view(m@), k@) matches Some(v) ==> r matches Some(x) && x@ == v,
        lookup(pairs_view(m@), k@) is None ==> r is None,
{
    let ghost s = pairs_view(m@);
    let mut i: usize = 0;
    while i < m.len()
        invariant
            i <= m@.len(),
            s == pairs_view(m@),
            first_index(s.take(i as int), k@) is None,
        decreases m@.len() - i,
    {
        assert(s.take(i + 1).drop_last() =~= s.take(i as int));
        if m[i].0 == *k {
            assert(first_index(s.take(i + 1), k@) == Some(i as int));
            proof {
                lemma_first_index_prefix_pairs(s, k@, i + 1);
            }
            return Some(m[i].1.clone());
        }
        i = i + 1;
    }
    assert(s.take(s.len() as int) =~= s);
    None
}

proof fn lemma_first_index_prefix_pairs(s: Seq<(Seq<char>, Seq<char>)>, k: Seq<char>, n: int)
    requires
        0 <= n <= s.len(),
        first_index(s.take(n), k) is Some,
    ensures
        first_index(s, k) == first_index(s.take(n), k),
    decreases s.len() - n,
{
    if n == s.len() {
        assert(s.take(n) =~= s);
    } else {
        assert(s.drop_last().take(n) =~= s.take(n));
        lemma_first_index_prefix_pairs(s.drop_last(), k, n);
    }
}

/// Resolves the registry that owns namespace `ns` from the cached operator
/// log (if any), what was found of the local config, and the client map.
pub fn resolve_namespace_domain(
    ns: &String,
    operator: Option<&LogState>,
    local: &LocalConfig,
    client: &Option<Vec<(String, String)>>,
) -> (r: Result<Option<String>, ClientError>)
    ensures
        domain_view(r) == resolve_spec(
            ns@,
            optional_state_view(operator),
            *local,
            optional_pairs_view(*client),
        ),
{
    let mut domain: Option<String> = match operator {
        Some(op) => match op.namespace_state(ns) {
            Some(crate::validator::NamespaceState::Imported { registry }) => Some(registry.clone()),
            _ => None,
        },
        None => match local {
            LocalConfig::Missing => None,
            LocalConfig::Unreadable => {
                return Err(ClientError::NoNamespaceConfig);
            },
            LocalConfig::Contents(bytes) => match parse_flat_json_map(bytes.as_slice()) {
                None => {
                    return Err(ClientError::InvalidLocalNamespaceConfig);
                },
                Some(m) => lookup_pairs(&m, ns),
            },
        },
    };
    if domain.is_none() {
        domain = match client {
            Some(m) => lookup_pairs(m, ns),
            None => None,
        };
    }
    Ok(domain)
}

/// Resolution is a function of what it reads: the same namespace, operator
/// log, local config and client map always give the same owner.
pub proof fn lemma_resolution_deterministic(
    ns1: Seq<char>,
    ns2: Seq<char>,
    op1: Option<LogView>,
    op2: Option<LogView>,
    local1: LocalConfig,
    local2: LocalConfig,
    client1: Option<Seq<(Seq<char>, Seq<char>)>>,
    client2: Option<Seq<(Seq<char>, Seq<char>)>>,
)
    requires
        ns1 == ns2,
        op1 == op2,
        local1 matches LocalConfig::Contents(b1) ==> local2 matches LocalConfig::Contents(b2)
            && b1@ == b2@,
        local1 is Missing <==> local2 is Missing,
        local1 is Unreadable <==> local2 is Unreadable,
        client1 == client2,
    ensures
        resolve_spec(ns1, op1, local1, client1) == resolve_spec(ns2, op2, local2, client2),
{
}

/// The position of the deepest config file among the depths at which
/// files were found: the first one of greatest depth.
pub fn select_deepest(depths: &Vec<usize>) -> (r: Option<usize>)
    ensures
        r is None <==> depths@.len() == 0,
        r matches Some(i) ==> i < depths@.len() && (forall|j: int|
            0 <= j < depths@.len() ==> depths@[j] <= depths@[i as int]) && (forall|j: int|
            0 <= j < i ==> depths@[j] < depths@[i as int]),
{
    if depths.len() == 0 {
        return None;
    }
    let mut best: usize = 0;
    let mut k: usize = 1;
    while k < depths.len()
        invariant
            1 <= k <= depths@.len(),
            best < k,
            forall|j: int| 0 <= j < k ==> depths@[j] <= depths@[best as int],
            forall|j: int| 0 <= j < best ==> depths@[j] < depths@[best as int],
        decreases depths@.len() - k,
    {
        if depths[best] < depths[k] {
            best = k;
        }
        k = k + 1;
    }
    Some(best)
}

} // verus!
