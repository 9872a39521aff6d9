use kubeconfig_doctor::config::{AuthInfo, Cluster, ContextRef, ExecPlugin, Kubeconfig, NamedEntry};
use kubeconfig_doctor::probe::{
    classify_identity, classify_proxy, server_reachable, tcp_reachable, HttpOutcome,
    IdentityClass, IdentityOutcome, ProxyCheck, ServerVersion, TcpOutcome, Url,
};
use kubeconfig_doctor::report::{
    cert_source, diagnose_context, inspect_authinfo, CertSource, ProbeOutcomes,
};
use kubeconfig_doctor::style::{green_check, red_cross};

fn bare_auth() -> AuthInfo {
    AuthInfo {
        username: None,
        password: None,
        token: None,
        client_certificate: None,
        client_certificate_data: None,
        exec_config: None,
    }
}

fn bare_cluster() -> Cluster {
    Cluster {
        server: None,
        certificate_authority: None,
        certificate_authority_data: None,
        proxy_url: None,
    }
}

#[test]
fn url_explicit_port_wins() {
    let u = Url { scheme: "https".to_string(), host: "h".to_string(), port: Some(8443) };
    assert_eq!(u.probe_port(), 8443);
}

#[test]
fn url_https_defaults_to_443() {
    let u = Url { scheme: "https".to_string(), host: "h".to_string(), port: None };
    assert_eq!(u.probe_port(), 443);
}

#[test]
fn url_other_scheme_defaults_to_80() {
    let u = Url { scheme: "http".to_string(), host: "h".to_string(), port: None };
    assert_eq!(u.probe_port(), 80);
    let s = Url { scheme: "socks5".to_string(), host: "h".to_string(), port: None };
    assert_eq!(s.probe_port(), 80);
}

#[test]
fn tcp_outcomes_classify() {
    assert!(tcp_reachable(&TcpOutcome::Connected));
    assert!(!tcp_reachable(&TcpOutcome::Refused));
    assert!(!tcp_reachable(&TcpOutcome::TimedOut));
    assert!(!tcp_reachable(&TcpOutcome::DnsFailure));
    assert!(!tcp_reachable(&TcpOutcome::Failed));
}

#[test]
fn proxy_absent_is_not_configured() {
    assert_eq!(classify_proxy(&None), ProxyCheck::NotConfigured);
    assert_eq!(classify_proxy(&Some(TcpOutcome::Connected)), ProxyCheck::Reachable);
    assert_eq!(classify_proxy(&Some(TcpOutcome::TimedOut)), ProxyCheck::Unreachable);
}

#[test]
fn server_reachable_below_500() {
    assert!(server_reachable(&HttpOutcome::Success));
    assert!(server_reachable(&HttpOutcome::ErrorStatus(401)));
    assert!(server_reachable(&HttpOutcome::ErrorStatus(403)));
    assert!(!server_reachable(&HttpOutcome::ErrorStatus(503)));
    assert!(!server_reachable(&HttpOutcome::Transport));
}

#[test]
fn identity_unauthenticated_is_rejected_not_unreachable() {
    let rejected = classify_identity(IdentityOutcome::ErrorStatus(401));
    let dns_failed = classify_identity(IdentityOutcome::Transport);
    assert_eq!(rejected, IdentityClass::Rejected(401));
    assert_eq!(dns_failed, IdentityClass::Unreachable);
    assert_ne!(rejected, dns_failed);
}

#[test]
fn identity_version_is_connected() {
    let v = ServerVersion { major: "1".to_string(), minor: "31".to_string() };
    let c = classify_identity(IdentityOutcome::Version(v.clone()));
    assert_eq!(c, IdentityClass::Connected(v));
}

#[test]
fn identity_server_fault_is_unreachable() {
    assert_eq!(classify_identity(IdentityOutcome::ErrorStatus(503)), IdentityClass::Unreachable);
}

#[test]
fn cert_file_path_checked_before_inline_data() {
    let mut c = bare_cluster();
    c.certificate_authority = Some("/etc/ca.crt".to_string());
    c.certificate_authority_data = Some("AAAA".to_string());
    assert_eq!(cert_source(&c), CertSource::FilePath("/etc/ca.crt".to_string()));
}

#[test]
fn cert_inline_data_redacted_to_length() {
    let mut c = bare_cluster();
    c.certificate_authority_data = Some("AAAABBBB".to_string());
    assert_eq!(cert_source(&c), CertSource::InlineData(8));
}

#[test]
fn cert_absent_is_not_set() {
    assert_eq!(cert_source(&bare_cluster()), CertSource::NotSet);
}

#[test]
fn auth_report_redacts_secrets_to_lengths() {
    let mut a = bare_auth();
    a.token = Some("secret-token".to_string());
    a.username = Some("alice".to_string());
    a.password = Some("hunter2".to_string());
    a.client_certificate_data = Some("CERTDATA".to_string());
    let r = inspect_authinfo(&a);
    assert_eq!(r.token_len, Some(12));
    assert!(r.has_username);
    assert_eq!(r.password_len, Some(7));
    assert_eq!(r.client_cert_data_len, Some(8));
    assert!(!r.has_exec);
    assert!(!r.has_client_cert_path);
}

#[test]
fn auth_report_checks_shapes_independently() {
    // several credential shapes at once: each is reported
    let mut a = bare_auth();
    a.token = Some("tok".to_string());
    a.client_certificate = Some("/etc/client.crt".to_string());
    a.exec_config = Some(ExecPlugin {
        command: Some("aws".to_string()),
        args: vec!["eks".to_string(), "get-token".to_string()],
    });
    let r = inspect_authinfo(&a);
    assert_eq!(r.token_len, Some(3));
    assert!(r.has_exec);
    assert!(r.has_client_cert_path);
    assert!(!r.has_username);
    assert_eq!(r.password_len, None);
}

#[test]
fn auth_report_password_without_username_not_reported() {
    let mut a = bare_auth();
    a.password = Some("lonely".to_string());
    let r = inspect_authinfo(&a);
    assert_eq!(r.password_len, None);
    assert!(!r.has_username);
}

#[test]
fn missing_cluster_still_reports_user() {
    // the context references cluster "staging" which exists nowhere; the
    // diagnosis flags the missing cluster, skips certificate inspection, and
    // still reports the resolved user
    let mut user = bare_auth();
    user.token = Some("tok".to_string());
    let cfg = Kubeconfig {
        contexts: vec![NamedEntry {
            name: "ctx".to_string(),
            value: Some(ContextRef { cluster: "staging".to_string(), user: "u".to_string() }),
        }],
        clusters: vec![],
        auth_infos: vec![NamedEntry { name: "u".to_string(), value: Some(user) }],
    };
    let d = diagnose_context(&cfg, &"ctx".to_string(), None);
    assert_eq!(d.cluster_name, "staging");
    assert!(!d.cluster_found);
    assert_eq!(d.cluster_cert, None);
    assert_eq!(d.user_name, "u");
    assert!(d.user_found);
    let auth = d.auth.unwrap();
    assert_eq!(auth.token_len, Some(3));
    assert!(d.probes.is_none());
}

#[test]
fn diagnosis_classifies_collected_outcomes() {
    let mut cl = bare_cluster();
    cl.server = Some("https://k8s.example:6443".to_string());
    cl.certificate_authority_data = Some("CA".to_string());
    let cfg = Kubeconfig {
        contexts: vec![NamedEntry {
            name: "prod".to_string(),
            value: Some(ContextRef { cluster: "c".to_string(), user: "u".to_string() }),
        }],
        clusters: vec![NamedEntry { name: "c".to_string(), value: Some(cl) }],
        auth_infos: vec![NamedEntry { name: "u".to_string(), value: Some(bare_auth()) }],
    };
    let outcomes = ProbeOutcomes {
        proxy: None,
        server: HttpOutcome::ErrorStatus(403),
        identity: IdentityOutcome::ErrorStatus(401),
    };
    let d = diagnose_context(&cfg, &"prod".to_string(), Some(outcomes));
    assert!(d.cluster_found);
    assert_eq!(d.cluster_cert, Some(CertSource::InlineData(2)));
    let probes = d.probes.unwrap();
    assert_eq!(probes.proxy, ProxyCheck::NotConfigured);
    assert!(probes.server_reachable);
    assert_eq!(probes.identity, IdentityClass::Rejected(401));
}

#[test]
fn check_marks_are_the_plain_symbols() {
    assert_eq!(green_check(), "\u{2713}");
    assert_eq!(red_cross(), "\u{2716}");
}
