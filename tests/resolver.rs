use warg_client::checkpoint::{check_consistency, Checkpoint, ConsistencyCheck, ConsistencyRequest};
use warg_client::client::{content_source, exact_release, registry_url_or_default, Client, StorageLockResult};
use warg_client::error::ClientError;
use warg_client::resolver::{namespace_of, resolve_namespace_domain, select_deepest, LocalConfig};
use warg_client::validator::{LogKind, LogState, NamespaceEntry, NamespaceState, ReleaseInfo};
use warg_client::versions::latest_release;

fn operator_importing_acme() -> LogState {
    let mut op = LogState::new(LogKind::Operator);
    op.namespaces.push(NamespaceEntry {
        namespace: "acme".to_string(),
        state: NamespaceState::Imported { registry: "https://other.example".to_string() },
    });
    op.namespaces.push(NamespaceEntry { namespace: "example".to_string(), state: NamespaceState::Defined });
    op
}

fn local(json: &str) -> LocalConfig {
    LocalConfig::Contents(json.as_bytes().to_vec())
}

fn client_map() -> Option<Vec<(String, String)>> {
    Some(vec![
        ("example".to_string(), "https://mapped.example".to_string()),
        ("acme".to_string(), "https://client.example".to_string()),
    ])
}

#[test]
fn operator_import_wins_over_local_file() {
    let op = operator_importing_acme();
    let ns = namespace_of("acme:x");
    assert_eq!(ns, "acme");
    let r = resolve_namespace_domain(&ns, Some(&op), &local(r#"{"acme": "https://wrong.example"}"#), &None);
    assert_eq!(r, Ok(Some("https://other.example".to_string())));
}

#[test]
fn defined_namespace_falls_through_to_client_map() {
    let op = operator_importing_acme();
    let r = resolve_namespace_domain(&"example".to_string(), Some(&op), &LocalConfig::Missing, &client_map());
    assert_eq!(r, Ok(Some("https://mapped.example".to_string())));
    let r = resolve_namespace_domain(&"other".to_string(), Some(&op), &LocalConfig::Unreadable, &client_map());
    assert_eq!(r, Ok(None));
}

#[test]
fn local_file_used_without_operator_log() {
    let cfg = local(r#"{"acme": "https://local.example", "zed": "https://z.example"}"#);
    let r = resolve_namespace_domain(&"acme".to_string(), None, &cfg, &client_map());
    assert_eq!(r, Ok(Some("https://local.example".to_string())));
    let r = resolve_namespace_domain(&"example".to_string(), None, &cfg, &client_map());
    assert_eq!(r, Ok(Some("https://mapped.example".to_string())));
    let r = resolve_namespace_domain(&"nothing".to_string(), None, &cfg, &None);
    assert_eq!(r, Ok(None));
}

#[test]
fn local_file_errors() {
    assert_eq!(
        resolve_namespace_domain(&"acme".to_string(), None, &LocalConfig::Unreadable, &None),
        Err(ClientError::NoNamespaceConfig)
    );
    assert_eq!(
        resolve_namespace_domain(&"acme".to_string(), None, &local("not json"), &None),
        Err(ClientError::InvalidLocalNamespaceConfig)
    );
    assert_eq!(
        resolve_namespace_domain(&"acme".to_string(), None, &local(r#"{"acme": {"nested": 1}}"#), &None),
        Err(ClientError::InvalidLocalNamespaceConfig)
    );
}

#[test]
fn resolution_is_deterministic() {
    let op = operator_importing_acme();
    let a = resolve_namespace_domain(&"acme".to_string(), Some(&op), &LocalConfig::Missing, &client_map());
    let b = resolve_namespace_domain(&"acme".to_string(), Some(&op), &LocalConfig::Missing, &client_map());
    assert_eq!(a, b);
}

#[test]
fn deepest_config_first_on_ties() {
    assert_eq!(select_deepest(&vec![]), None);
    assert_eq!(select_deepest(&vec![1, 3, 2, 3]), Some(1));
    assert_eq!(select_deepest(&vec![0]), Some(0));
}

#[test]
fn namespace_without_colon_is_whole_name() {
    assert_eq!(namespace_of("plain"), "plain");
    assert_eq!(namespace_of(":x"), "");
    assert_eq!(namespace_of("a:b:c"), "a");
}

#[test]
fn consistency_rules() {
    let cp = |n: u64, root: &str| Checkpoint { log_length: n, log_root: root.to_string(), map_root: "M".to_string() };
    assert_eq!(check_consistency(&cp(10, "A"), &cp(10, "A")), Ok(ConsistencyCheck::Unchanged));
    assert_eq!(
        check_consistency(&cp(10, "A"), &cp(10, "B")),
        Err(ClientError::CheckpointChangedLogRootOrMapRoot { log_length: 10 })
    );
    assert_eq!(
        check_consistency(&cp(10, "A"), &cp(9, "B")),
        Err(ClientError::CheckpointLogLengthRewind { from: 10, to: 9 })
    );
    assert_eq!(
        check_consistency(&cp(4, "R4"), &cp(5, "R5")),
        Ok(ConsistencyCheck::Prove(ConsistencyRequest {
            from: 4,
            to: 5,
            from_root: "R4".to_string(),
            to_root: "R5".to_string(),
        }))
    );
    let other_map = Checkpoint { log_length: 10, log_root: "A".to_string(), map_root: "N".to_string() };
    assert_eq!(
        check_consistency(&cp(10, "A"), &other_map),
        Err(ClientError::CheckpointChangedLogRootOrMapRoot { log_length: 10 })
    );
}

#[test]
fn storage_locks_decide_construction() {
    let r: StorageLockResult<Client<u8, u8, u8>> =
        Client::try_new_with_config("u".to_string(), None, Some(2), 3, "reg".to_string(), "con".to_string());
    assert!(matches!(r, StorageLockResult::NotAcquired(ref d) if d == "reg"));
    let r: StorageLockResult<Client<u8, u8, u8>> =
        Client::try_new_with_config("u".to_string(), Some(1), None, 3, "reg".to_string(), "con".to_string());
    assert!(matches!(r, StorageLockResult::NotAcquired(ref d) if d == "con"));
    match Client::try_new_with_config("u".to_string(), Some(1u8), Some(2u8), 3u8, "reg".to_string(), "con".to_string()) {
        StorageLockResult::Acquired(c) => {
            assert_eq!(c.url(), "u");
            assert_eq!(*c.registry(), 1);
            assert_eq!(*c.content(), 2);
        }
        StorageLockResult::NotAcquired(_) => panic!("both locks were acquired"),
    }
    let c = Client::new_with_config("v".to_string(), 4u8, 5u8, 6u8);
    assert_eq!(c.namespace_map, 6);
}

#[test]
fn default_url() {
    assert_eq!(registry_url_or_default(Some("a".to_string()), &Some("b".to_string())), Ok("a".to_string()));
    assert_eq!(registry_url_or_default(None, &Some("b".to_string())), Ok("b".to_string()));
    assert_eq!(registry_url_or_default(None, &None), Err(ClientError::NoDefaultUrl));
}

fn releases() -> LogState {
    let mut state = LogState::new(LogKind::Package);
    for (v, c) in [("1.0.0", Some("d100")), ("1.2.0", Some("d120")), ("2.0.0", Some("d200")), ("1.3.0", None), ("1.1.0", Some("d110"))] {
        state.releases.push(ReleaseInfo { version: v.to_string(), content: c.map(|c| c.to_string()) });
    }
    state
}

#[test]
fn latest_matching_release() {
    let state = releases();
    assert_eq!(latest_release(&state, &"^1".to_string()), Some(("1.2.0".to_string(), "d120".to_string())));
    assert_eq!(latest_release(&state, &"*".to_string()), Some(("2.0.0".to_string(), "d200".to_string())));
    assert_eq!(latest_release(&state, &"^3".to_string()), None);
    assert_eq!(latest_release(&state, &"not a requirement".to_string()), None);
}

#[test]
fn exact_release_lookup() {
    let state = releases();
    let name = "example:foo".to_string();
    assert_eq!(exact_release(&state, &name, &"1.1.0".to_string()), Ok("d110".to_string()));
    assert_eq!(
        exact_release(&state, &name, &"1.3.0".to_string()),
        Err(ClientError::PackageVersionDoesNotExist { version: "1.3.0".to_string(), name: name.clone() })
    );
    assert_eq!(
        exact_release(&state, &name, &"9.9.9".to_string()),
        Err(ClientError::PackageVersionDoesNotExist { version: "9.9.9".to_string(), name })
    );
}

#[test]
fn content_source_uses_client_map_only() {
    assert_eq!(content_source(&"example:foo".to_string(), &client_map()), Some("https://mapped.example".to_string()));
    assert_eq!(content_source(&"other:foo".to_string(), &client_map()), None);
    assert_eq!(content_source(&"example:foo".to_string(), &None), None);
}
