use vstd::prelude::*;

use crate::config::{resolved, AuthInfo, Cluster, Kubeconfig};
use crate::probe::{
    classify_identity, classify_proxy, server_reachable, spec_classify_identity,
    spec_classify_proxy, spec_server_reachable, HttpOutcome, IdentityClass, IdentityOutcome,
    ProxyCheck, TcpOutcome,
};
use crate::resolve::{deref_opt, find_context, spec_context_names};
use vstd::string::StrSliceExecFns;

verus! {

/// Where a cluster's certificate authority comes from. Inline data is
/// redacted to its length in characters; a file path is not secret and is
/// carried for the caller to check on disk.
#[derive(Clone, PartialEq, Eq, Debug)]
pub enum CertSource {
    FilePath(String),
    InlineData(usize),
    NotSet,
}

pub open spec fn spec_cert_source(c: Cluster) -> CertSource {
    match c.certificate_authority {
        Some(p) => CertSource::FilePath(p),
        None => match c.certificate_authority_data {
            Some(d) => CertSource::InlineData(d@.len() as usize),
            None => CertSource::NotSet,
        },
    }
}

/// Both certificate fields are checked, the file path first, as loaded
/// configurations are expected to carry at most one.
pub fn cert_source(c: &Cluster) -> (r: CertSource)
    ensures
        r == spec_cert_source(*c),
{
    match &c.certificate_authority {
        Some(p) => CertSource::FilePath(p.clone()),
        None => match &c.certificate_authority_data {
            Some(d) => CertSource::InlineData(d.as_str().unicode_len()),
            None => CertSource::NotSet,
        },
    }
}

/// The redaction-safe summary of one user's credentials: which shapes are
/// present, and for secret material only its length in characters. The shapes
/// are inspected independently, never as an exclusive choice.
#[derive(Clone, Copy, PartialEq, Eq, Structural, Debug)]
pub struct AuthReport {
    pub has_exec: bool,
    pub token_len: Option<usize>,
    pub has_username: bool,
    pub password_len: Option<usize>,
    pub has_client_cert_path: bool,
    pub client_cert_data_len: Option<usize>,
}

pub open spec fn spec_auth_report(a: AuthInfo) -> AuthReport {
    AuthReport {
        has_exec: a.exec_config is Some,
        token_len: match a.token {
            Some(t) => Some(t@.len() as usize),
            None => None,
        },
        has_username: a.username is Some,
        password_len: match a.username {
            Some(u) => Some(
                match a.password {
                    Some(p) => p@.len() as usize,
                    None => 0usize,
                },
            ),
            None => None,
        },
        has_client_cert_path: a.client_certificate is Some,
        client_cert_data_len: match a.client_certificate_data {
            Some(d) => Some(d@.len() as usize),
            None => None,
        },
    }
}

/// Credential values are never surfaced, only their presence and length. A
/// password length (0 when no password is set) is reported only alongside a
/// username, as the two form one basic-authentication shape.
pub fn inspect_authinfo(a: &AuthInfo) -> (r: AuthReport)
    ensures
        r == spec_auth_report(*a),
{
    let token_len: Option<usize> = match &a.token {
        Some(t) => Some(t.as_str().unicode_len()),
        None => None,
    };
    let password_len: Option<usize> = match &a.username {
        Some(_) => Some(
            match &a.password {
                Some(p) => p.as_str().unicode_len(),
                None => 0,
            },
        ),
        None => None,
    };
    let client_cert_data_len: Option<usize> = match &a.client_certificate_data {
        Some(d) => Some(d.as_str().unicode_len()),
        None => None,
    };
    AuthReport {
        has_exec: a.exec_config.is_some(),
        token_len,
        has_username: a.username.is_some(),
        password_len,
        has_client_cert_path: a.client_certificate.is_some(),
        client_cert_data_len,
    }
}

/// The raw outcomes of the three network probes, as the runtime saw them: the
/// proxy connection attempt (absent when no proxy is configured), the bare
/// unauthenticated request, and the authenticated version request.
#[derive(Clone, PartialEq, Eq, Debug)]
pub struct ProbeOutcomes {
    pub proxy: Option<TcpOutcome>,
    pub server: HttpOutcome,
    pub identity: IdentityOutcome,
}

/// The classified results of the three probes.
#[derive(Clone, PartialEq, Eq, Debug)]
pub struct ProbeResults {
    pub proxy: ProxyCheck,
    pub server_reachable: bool,
    pub identity: IdentityClass,
}

pub open spec fn spec_probe_results(o: ProbeOutcomes) -> ProbeResults {
    ProbeResults {
        proxy: spec_classify_proxy(o.proxy),
        server_reachable: spec_server_reachable(o.server),
        identity: spec_classify_identity(o.identity),
    }
}

/// Everything one diagnostic pass reports for one context. Each field answers
/// its own question: no failure blocks the checks after it.
#[derive(Clone, PartialEq, Eq, Debug)]
pub struct ContextDiagnosis {
    pub context_name: String,
    pub cluster_name: String,
    pub cluster_found: bool,
    pub cluster_cert: Option<CertSource>,
    pub user_name: String,
    pub user_found: bool,
    pub auth: Option<AuthReport>,
    pub probes: Option<ProbeResults>,
}

/// Assemble the diagnosis of one context in the fixed check order: structural
/// resolution, then proxy, server and identity classification over the probe
/// outcomes the caller collected (absent when no client could be built at
/// all). A missing cluster skips only certificate inspection and a missing
/// user skips only credential inspection; every other check still reports.
pub fn diagnose_context(
    config: &Kubeconfig,
    context_name: &String,
    outcomes: Option<ProbeOutcomes>,
) -> (d: ContextDiagnosis)
    ensures
        d.context_name@ == context_name@,
        d.cluster_name@ == spec_context_names(*config, context_name@).0,
        d.user_name@ == spec_context_names(*config, context_name@).1,
        d.cluster_found == (resolved(config.clusters@, d.cluster_name@) is Some),
        (match resolved(config.clusters@, d.cluster_name@) {
            Some(cl) => d.cluster_cert == Some(spec_cert_source(cl)),
            None => d.cluster_cert is None,
        }),
        d.user_found == (resolved(config.auth_infos@, d.user_name@) is Some),
        (match resolved(config.auth_infos@, d.user_name@) {
            Some(a) => d.auth == Some(spec_auth_report(a)),
            None => d.auth is None,
        }),
        (match outcomes {
            Some(o) => d.probes == Some(spec_probe_results(o)),
            None => d.probes is None,
        }),
{
    let (cluster_name, cluster, user_name, user) = find_context(config, context_name);
    let cluster_found = cluster.is_some();
    let cluster_cert: Option<CertSource> = match cluster {
        Some(c) => Some(cert_source(c)),
        None => None,
    };
    let user_found = user.is_some();
    let auth: Option<AuthReport> = match user {
        Some(a) => Some(inspect_authinfo(a)),
        None => None,
    };
    let probes: Option<ProbeResults> = match outcomes {
        Some(o) => Some(
            ProbeResults {
                proxy: classify_proxy(&o.proxy),
                server_reachable: server_reachable(&o.server),
                identity: classify_identity(o.identity),
            },
        ),
        None => None,
    };
    ContextDiagnosis {
        context_name: context_name.clone(),
        cluster_name,
        cluster_found,
        cluster_cert,
        user_name,
        user_found,
        auth,
        probes,
    }
}

} // verus!
