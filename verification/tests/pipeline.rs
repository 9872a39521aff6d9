use kubeconfig_doctor::config::{AuthInfo, Cluster, ContextRef, Kubeconfig, NamedEntry};
use kubeconfig_doctor::duplicates::{find_duplicates, DupKind};
use kubeconfig_doctor::merge::{merge_kubeconfigs, MergeError};
use kubeconfig_doctor::resolve::find_context;

fn cluster(server: &str) -> Cluster {
    Cluster {
        server: Some(server.to_string()),
        certificate_authority: None,
        certificate_authority_data: None,
        proxy_url: None,
    }
}

fn named_cluster(name: &str, server: &str) -> NamedEntry<Cluster> {
    NamedEntry { name: name.to_string(), value: Some(cluster(server)) }
}

fn named_context(name: &str, cluster: &str, user: &str) -> NamedEntry<ContextRef> {
    NamedEntry {
        name: name.to_string(),
        value: Some(ContextRef { cluster: cluster.to_string(), user: user.to_string() }),
    }
}

fn bare_auth() -> AuthInfo {
    AuthInfo {
        username: None,
        password: None,
        token: None,
        client_certificate: None,
        client_certificate_data: None,
        exec_config: None,
    }
}

fn named_user(name: &str) -> NamedEntry<AuthInfo> {
    NamedEntry { name: name.to_string(), value: Some(bare_auth()) }
}

fn config(
    contexts: Vec<NamedEntry<ContextRef>>,
    clusters: Vec<NamedEntry<Cluster>>,
    auth_infos: Vec<NamedEntry<AuthInfo>>,
) -> Kubeconfig {
    Kubeconfig { contexts, clusters, auth_infos }
}

fn server_of(merged: &Kubeconfig, cluster_name: &str) -> Option<String> {
    for e in &merged.clusters {
        if e.name == cluster_name {
            return e.value.as_ref().and_then(|c| c.server.clone());
        }
    }
    None
}

#[test]
fn merge_later_source_wins() {
    let a = config(vec![], vec![named_cluster("x", "https://a")], vec![]);
    let b = config(vec![], vec![named_cluster("x", "https://b")], vec![]);
    let merged = merge_kubeconfigs(vec![a, b]).unwrap();
    assert_eq!(merged.clusters.len(), 1);
    assert_eq!(server_of(&merged, "x"), Some("https://b".to_string()));
}

#[test]
fn merge_is_order_sensitive() {
    let a = config(vec![], vec![named_cluster("x", "https://a")], vec![]);
    let b = config(vec![], vec![named_cluster("x", "https://b")], vec![]);
    let merged = merge_kubeconfigs(vec![b, a]).unwrap();
    assert_eq!(server_of(&merged, "x"), Some("https://a".to_string()));
}

#[test]
fn merge_replaces_entries_whole() {
    // no field-level merge: the overriding entry replaces the earlier one entirely
    let mut with_ca = cluster("https://a");
    with_ca.certificate_authority = Some("/etc/ca.crt".to_string());
    let a = config(
        vec![],
        vec![NamedEntry { name: "x".to_string(), value: Some(with_ca) }],
        vec![],
    );
    let b = config(vec![], vec![named_cluster("x", "https://b")], vec![]);
    let merged = merge_kubeconfigs(vec![a, b]).unwrap();
    let entry = merged.clusters.iter().find(|e| e.name == "x").unwrap();
    let c = entry.value.as_ref().unwrap();
    assert_eq!(c.server, Some("https://b".to_string()));
    assert_eq!(c.certificate_authority, None);
}

#[test]
fn merge_keeps_non_colliding_names() {
    let a = config(vec![], vec![named_cluster("a", "https://a")], vec![]);
    let b = config(vec![], vec![named_cluster("b", "https://b")], vec![]);
    let merged = merge_kubeconfigs(vec![a, b]).unwrap();
    assert_eq!(merged.clusters.len(), 2);
    assert_eq!(server_of(&merged, "a"), Some("https://a".to_string()));
    assert_eq!(server_of(&merged, "b"), Some("https://b".to_string()));
}

#[test]
fn merge_of_no_sources_is_empty() {
    let merged = merge_kubeconfigs(vec![]).unwrap();
    assert!(merged.contexts.is_empty());
    assert!(merged.clusters.is_empty());
    assert!(merged.auth_infos.is_empty());
}

#[test]
fn merge_rejects_invalid_source() {
    let ok = config(vec![], vec![named_cluster("a", "https://a")], vec![]);
    let bad = config(
        vec![],
        vec![named_cluster("x", "https://1"), named_cluster("x", "https://2")],
        vec![],
    );
    let r = merge_kubeconfigs(vec![ok, bad]);
    assert_eq!(r.unwrap_err(), MergeError::InvalidSource { index: 1 });
}

fn count_dups(d: &[kubeconfig_doctor::duplicates::Duplicate], kind: DupKind, name: &str) -> usize {
    d.iter().filter(|x| x.kind == kind && x.name == name).count()
}

#[test]
fn duplicates_reports_each_later_occurrence() {
    // a name in exactly three sources is reported twice
    let a = config(vec![], vec![named_cluster("x", "https://1")], vec![]);
    let b = config(vec![], vec![named_cluster("x", "https://2")], vec![]);
    let c = config(vec![], vec![named_cluster("x", "https://3")], vec![]);
    let d = find_duplicates(&vec![a, b, c]);
    assert_eq!(count_dups(&d, DupKind::Cluster, "x"), 2);
    assert_eq!(d.len(), 2);
}

#[test]
fn duplicates_empty_when_names_unique() {
    let a = config(
        vec![named_context("c1", "x", "u")],
        vec![named_cluster("x", "https://1")],
        vec![named_user("u")],
    );
    let b = config(vec![], vec![named_cluster("y", "https://2")], vec![]);
    let d = find_duplicates(&vec![a, b]);
    assert!(d.is_empty());
}

#[test]
fn duplicates_kinds_are_separate() {
    // the same name in different registries is no duplicate
    let a = config(
        vec![named_context("x", "x", "x")],
        vec![named_cluster("x", "https://1")],
        vec![named_user("x")],
    );
    let d = find_duplicates(&vec![a]);
    assert!(d.is_empty());
}

#[test]
fn two_files_same_context_name() {
    // both define context "prod": the merged file holds the later target and
    // detection reports one duplicate context named "prod"
    let a = config(
        vec![named_context("prod", "c1", "u1")],
        vec![named_cluster("c1", "https://one")],
        vec![named_user("u1")],
    );
    let b = config(
        vec![named_context("prod", "c2", "u1")],
        vec![named_cluster("c2", "https://two")],
        vec![],
    );
    let sources = vec![a, b];
    let d = find_duplicates(&sources);
    assert_eq!(count_dups(&d, DupKind::Context, "prod"), 1);
    assert_eq!(d.len(), 1);

    let merged = merge_kubeconfigs(sources).unwrap();
    let (cluster_name, cluster, user_name, _user) =
        find_context(&merged, &"prod".to_string());
    assert_eq!(cluster_name, "c2");
    assert_eq!(user_name, "u1");
    assert_eq!(cluster.unwrap().server, Some("https://two".to_string()));
}

#[test]
fn resolve_dangling_cluster_is_none() {
    let cfg = config(
        vec![named_context("ctx", "missing", "u")],
        vec![named_cluster("other", "https://o")],
        vec![named_user("u")],
    );
    let (cluster_name, cluster, user_name, user) = find_context(&cfg, &"ctx".to_string());
    assert_eq!(cluster_name, "missing");
    assert!(cluster.is_none());
    assert_eq!(user_name, "u");
    assert!(user.is_some());
}

#[test]
fn resolve_unknown_context_yields_empty_names() {
    let cfg = config(
        vec![named_context("ctx", "c", "u")],
        vec![named_cluster("c", "https://c")],
        vec![named_user("u")],
    );
    let (cluster_name, cluster, user_name, user) = find_context(&cfg, &"nope".to_string());
    assert_eq!(cluster_name, "");
    assert_eq!(user_name, "");
    assert!(cluster.is_none());
    assert!(user.is_none());
}

#[test]
fn resolve_context_without_payload() {
    let cfg = config(
        vec![NamedEntry { name: "bare".to_string(), value: None }],
        vec![],
        vec![],
    );
    let (cluster_name, cluster, user_name, user) = find_context(&cfg, &"bare".to_string());
    assert_eq!(cluster_name, "");
    assert_eq!(user_name, "");
    assert!(cluster.is_none());
    assert!(user.is_none());
}

#[test]
fn name_getters_list_in_order() {
    let cfg = config(
        vec![named_context("c1", "x", "u"), named_context("c2", "y", "u")],
        vec![named_cluster("x", "https://x")],
        vec![named_user("u")],
    );
    assert_eq!(cfg.context_names(), vec!["c1".to_string(), "c2".to_string()]);
    assert_eq!(cfg.cluster_names(), vec!["x".to_string()]);
    assert_eq!(cfg.user_names(), vec!["u".to_string()]);
}

#[test]
fn well_formedness_checks_each_registry() {
    let ok = config(vec![], vec![named_cluster("x", "https://1")], vec![]);
    assert!(ok.is_well_formed());
    let bad = config(
        vec![],
        vec![named_cluster("x", "https://1"), named_cluster("x", "https://2")],
        vec![],
    );
    assert!(!bad.is_well_formed());
}

#[test]
fn resolve_dangling_user_is_none() {
    let cfg = config(
        vec![named_context("ctx", "c", "ghost-user")],
        vec![named_cluster("c", "https://c")],
        vec![named_user("someone-else")],
    );
    let (cluster_name, cluster, user_name, user) = find_context(&cfg, &"ctx".to_string());
    assert_eq!(cluster_name, "c");
    assert!(cluster.is_some());
    assert_eq!(user_name, "ghost-user");
    assert!(user.is_none());
}

#[test]
fn duplicates_within_one_source_count_too() {
    // three occurrences of one name, two of them in the same file: still two reports
    let a = config(
        vec![],
        vec![named_cluster("x", "https://1"), named_cluster("x", "https://2")],
        vec![],
    );
    let b = config(vec![], vec![named_cluster("x", "https://3")], vec![]);
    let d = find_duplicates(&vec![a, b]);
    assert_eq!(count_dups(&d, DupKind::Cluster, "x"), 2);
}
