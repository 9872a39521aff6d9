use vstd::prelude::*;

verus! {

/// Timeout in seconds for the raw TCP reachability probe.
pub const TCP_PROBE_TIMEOUT_SECS: u64 = 3;

/// Timeout in seconds for connecting to the API server.
pub const CONNECT_TIMEOUT_SECS: u64 = 5;

/// Default port for `https` URLs without an explicit port.
pub const HTTPS_DEFAULT_PORT: u16 = 443;

/// Default port for URLs of any other scheme without an explicit port.
pub const HTTP_DEFAULT_PORT: u16 = 80;

/// A network endpoint as the reachability probe sees it: scheme, host, and
/// the explicit port when the URL carries one.
pub struct Url {
    pub scheme: String,
    pub host: String,
    pub port: Option<u16>,
}

impl Url {
    /// The port the probe connects to: the explicit port when present, else
    /// 443 for `https` and 80 for any other scheme.
    pub open spec fn spec_probe_port(&self) -> u16 {
        match self.port {
            Some(p) => p,
            None => if self.scheme@ == "https"@ {
                HTTPS_DEFAULT_PORT
            } else {
                HTTP_DEFAULT_PORT
            },
        }
    }

    pub fn probe_port(&self) -> (p: u16)
        ensures
            p == self.spec_probe_port(),
    {
        match self.port {
            Some(p) => p,
            None => {
                if self.scheme == "https".to_owned() {
                    HTTPS_DEFAULT_PORT
                } else {
                    HTTP_DEFAULT_PORT
                }
            },
        }
    }
}

/// What one bounded raw TCP connection attempt came to. No TLS handshake and
/// no HTTP exchange stand behind this: it answers only whether something
/// listens.
#[derive(Clone, Copy, PartialEq, Eq, Structural, Debug)]
pub enum TcpOutcome {
    Connected,
    Refused,
    TimedOut,
    DnsFailure,
    Failed,
}

/// Reachable means the connection was established within the timeout; a
/// refusal, a timeout, a DNS failure or any other failure is unreachable.
pub fn tcp_reachable(o: &TcpOutcome) -> (b: bool)
    ensures
        b == (*o == TcpOutcome::Connected),
{
    match o {
        TcpOutcome::Connected => true,
        _ => false,
    }
}

/// The reachability state of an optional proxy: an absent proxy is its own,
/// distinct state, never a failure.
#[derive(Clone, Copy, PartialEq, Eq, Structural, Debug)]
pub enum ProxyCheck {
    NotConfigured,
    Reachable,
    Unreachable,
}

pub open spec fn spec_classify_proxy(o: Option<TcpOutcome>) -> ProxyCheck {
    match o {
        None => ProxyCheck::NotConfigured,
        Some(t) => if t == TcpOutcome::Connected {
            ProxyCheck::Reachable
        } else {
            ProxyCheck::Unreachable
        },
    }
}

pub fn classify_proxy(o: &Option<TcpOutcome>) -> (c: ProxyCheck)
    ensures
        c == spec_classify_proxy(*o),
{
    match o {
        None => ProxyCheck::NotConfigured,
        Some(t) => if tcp_reachable(t) {
            ProxyCheck::Reachable
        } else {
            ProxyCheck::Unreachable
        },
    }
}

/// What the bare, unauthenticated HTTP request to the API server came to:
/// an answer, an HTTP error status, or no answer at all.
#[derive(Clone, Copy, PartialEq, Eq, Structural, Debug)]
pub enum HttpOutcome {
    Success,
    ErrorStatus(u16),
    Transport,
}

pub open spec fn spec_server_reachable(o: HttpOutcome) -> bool {
    match o {
        HttpOutcome::Success => true,
        HttpOutcome::ErrorStatus(c) => c < 500,
        HttpOutcome::Transport => false,
    }
}

/// The server counts as reachable when the transport got any HTTP answer out
/// of it that is not a server fault: a status below 500 — typically the
/// authorization error the unauthenticated request provokes — still shows a
/// listening API server.
pub fn server_reachable(o: &HttpOutcome) -> (b: bool)
    ensures
        b == spec_server_reachable(*o),
{
    match o {
        HttpOutcome::Success => true,
        HttpOutcome::ErrorStatus(c) => *c < 500,
        HttpOutcome::Transport => false,
    }
}

/// The version information an authenticated metadata request returns.
#[derive(Clone, PartialEq, Eq, Debug)]
pub struct ServerVersion {
    pub major: String,
    pub minor: String,
}

/// What the authenticated version request came to.
#[derive(Clone, PartialEq, Eq, Debug)]
pub enum IdentityOutcome {
    Version(ServerVersion),
    ErrorStatus(u16),
    Transport,
}

/// The three outcome classes of the identity probe, kept apart because each
/// sends the operator to a different fix.
#[derive(Clone, PartialEq, Eq, Debug)]
pub enum IdentityClass {
    Connected(ServerVersion),
    Rejected(u16),
    Unreachable,
}

pub open spec fn spec_classify_identity(o: IdentityOutcome) -> IdentityClass {
    match o {
        IdentityOutcome::Version(v) => IdentityClass::Connected(v),
        IdentityOutcome::ErrorStatus(c) => if c < 500 {
            IdentityClass::Rejected(c)
        } else {
            IdentityClass::Unreachable
        },
        IdentityOutcome::Transport => IdentityClass::Unreachable,
    }
}

/// A returned version is connected and authenticated; a client-error status
/// is the server answering, so the transport is up and only the identity is
/// rejected; a server fault or a transport-level failure (timeout, TLS, DNS)
/// is infrastructure, not authentication.
pub fn classify_identity(o: IdentityOutcome) -> (c: IdentityClass)
    ensures
        c == spec_classify_identity(o),
{
    match o {
        IdentityOutcome::Version(v) => IdentityClass::Connected(v),
        IdentityOutcome::ErrorStatus(code) => {
            if code < 500 {
                IdentityClass::Rejected(code)
            } else {
                IdentityClass::Unreachable
            }
        },
        IdentityOutcome::Transport => IdentityClass::Unreachable,
    }
}

/// A client-error answer (an authentication or authorization failure, such as
/// a 401) is classified as reachable-but-rejected, and that classification is
/// distinct from the one a transport-level failure (such as a DNS-resolution
/// failure) produces, which is unreachable.
pub proof fn lemma_rejected_distinct_from_unreachable(c: u16)
    requires
        400 <= c < 500,
    ensures
        spec_classify_identity(IdentityOutcome::ErrorStatus(c)) == IdentityClass::Rejected(c),
        spec_classify_identity(IdentityOutcome::Transport) == IdentityClass::Unreachable,
        spec_classify_identity(IdentityOutcome::ErrorStatus(c)) != spec_classify_identity(
            IdentityOutcome::Transport,
        ),
{
}

} // verus!
