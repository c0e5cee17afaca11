//! The client: its storage handles and registry URL, how storage locks
//! decide its construction, and how downloads pick a release.
use crate::error::ClientError;
use crate::resolver::{lookup, namespace_of, namespace_spec, optional_pairs_view};
use crate::validator::{first_index, LogState, LogView, ReleaseInfo};
use vstd::prelude::*;

verus! {

/// A client of a registry: its URL and its registry, content and namespace
/// map storage.
pub struct Client<R, C, N> {
    pub url: String,
    pub registry: R,
    pub content: C,
    pub namespace_map: N,
}

/// The outcome of trying to lock client storage.
pub enum StorageLockResult<T> {
    /// Every lock was acquired.
    Acquired(T),
    /// The lock of this directory was not acquired.
    NotAcquired(String),
}

/// A downloaded package: the version, the digest of its content, and where
/// client storage holds the content.
pub struct PackageDownload {
    pub version: String,
    pub digest: String,
    pub path: String,
}

impl<R, C, N> Client<R, C, N> {
    /// A client for the registry at `url` over the given storage.
    pub fn new(url: String, registry: R, content: C, namespace_map: N) -> (r: Self)
        ensures
            r.url == url,
            r.registry == registry,
            r.content == content,
            r.namespace_map == namespace_map,
    {
        Client { url, registry, content, namespace_map }
    }

    /// The URL of the registry.
    pub fn url(&self) -> (r: &String)
        ensures
            *r == self.url,
    {
        &self.url
    }

    /// The registry storage.
    pub fn registry(&self) -> (r: &R)
        ensures
            *r == self.registry,
    {
        &self.registry
    }

    /// The content storage.
    pub fn content(&self) -> (r: &C)
        ensures
            *r == self.content,
    {
        &self.content
    }

    /// A client over storage whose locks were tried: the registry storage
    /// (none when its directory was already locked), then the content
    /// storage (likewise). The first lock that failed names its directory.
    pub fn try_new_with_config(
        url: String,
        registry: Option<R>,
        content: Option<C>,
        namespace_map: N,
        registries_dir: String,
        content_dir: String,
    ) -> (r: StorageLockResult<Self>)
        ensures
            registry is None ==> r == StorageLockResult::<Self>::NotAcquired(registries_dir),
            registry is Some && content is None ==> r == StorageLockResult::<Self>::NotAcquired(
                content_dir,
            ),
            registry is Some && content is Some ==> r == StorageLockResult::Acquired(
                Client { url, registry: registry->0, content: content->0, namespace_map },
            ),
    {
        match (registry, content) {
            (Some(registry), Some(content)) => StorageLockResult::Acquired(
                Client::new(url, registry, content, namespace_map),
            ),
            (None, _) => StorageLockResult::NotAcquired(registries_dir),
            (_, None) => StorageLockResult::NotAcquired(content_dir),
        }
    }

    /// A client over storage whose locks were waited for.
    pub fn new_with_config(url: String, registry: R, content: C, namespace_map: N) -> (r: Self)
        ensures
            r == (Client { url, registry, content, namespace_map }),
    {
        Client::new(url, registry, content, namespace_map)
    }
}

/// The registry URL to use: the one given, else the configured default.
pub fn registry_url_or_default(url: Option<String>, default_url: &Option<String>) -> (r: Result<
    String,
    ClientError,
>)
    ensures
        url is Some ==> r == Ok::<String, ClientError>(url->0),
        url is None && default_url is Some ==> r == Ok::<String, ClientError>(default_url->0),
        url is None && default_url is None ==> r == Err::<String, ClientError>(
            ClientError::NoDefaultUrl,
        ),
{
    match url {
        Some(u) => Ok(u),
        None => match default_url {
            Some(d) => Ok(d.clone()),
            None => Err(ClientError::NoDefaultUrl),
        },
    }
}

/// The content digest of an exact version, which must be released and not
/// yanked.
pub open spec fn exact_release_spec(v: LogView, version: Seq<char>) -> Option<Seq<char>> {
    match first_index(v.releases, version) {
        Some(i) => v.releases[i].1,
        None => None,
    }
}

/// The content digest of `version` of package `name` for an exact download.
pub fn exact_release(state: &LogState, name: &String, version: &String) -> (r: Result<
    String,
    ClientError,
>)
    ensures
        exact_release_spec(state@, version@) matches Some(d) ==> (r matches Ok(x) && x@ == d),
        exact_release_spec(state@, version@) is None ==> r == Err::<String, ClientError>(
            ClientError::PackageVersionDoesNotExist { version: *version, name: *name },
        ),
{
    match state.release(version) {
        Some(ReleaseInfo { content: Some(d), .. }) => Ok(d.clone()),
        _ => Err(ClientError::PackageVersionDoesNotExist { version: version.clone(), name: name.clone() }),
    }
}

/// Where content of packages of `name`'s namespace is downloaded from: the
/// client map's entry for the namespace (the operator log and local config
/// are not consulted).
pub fn content_source(name: &String, client: &Option<Vec<(String, String)>>) -> (r: Option<String>)
    ensures
        ({
            let expected = match optional_pairs_view(*client) {
                Some(m) => lookup(m, namespace_spec(name@)),
                None => None,
            };
            &&& expected is None ==> r is None
            &&& expected matches Some(d) ==> (r matches Some(x) && x@ == d)
        }),
{
    let ns = namespace_of(name.as_str());
    match client {
        Some(m) => crate::resolver::lookup_pairs(m, &ns),
        None => None,
    }
}

} // verus!
