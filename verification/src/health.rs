use vstd::prelude::*;
use crate::connection::{Connection, ConnectionConfig, now_rfc3339};
use crate::ident::ConnectionId;
use crate::text::dec_str;

verus! {

/// Every probe is bounded by this timeout, in seconds.
pub const PROBE_TIMEOUT_SECS: u64 = 5;

/// Outcome classification of one health probe. `Degraded` is
/// reserved: no probe produces it. `Unknown` is the caller-side
/// "not yet checked" state; the probe itself never returns it.
#[derive(Clone, Copy, Debug, PartialEq, Eq, Structural)]
pub enum HealthStatus {
    Online,
    Offline,
    Degraded,
    Unknown,
}

/// The outcome of one probe: ephemeral, never persisted. A latency
/// is present exactly when the target was online; an error message
/// only when it was offline.
#[derive(Debug, Clone)]
pub struct HealthResult {
    pub connection_id: ConnectionId,
    pub status: HealthStatus,
    pub latency_ms: Option<u64>,
    pub error: Option<String>,
    pub checked_at: String,
}

impl HealthResult {
    pub fn online(connection_id: ConnectionId, latency_ms: u64) -> (r: HealthResult)
        ensures
            r.connection_id == connection_id,
            r.status == HealthStatus::Online,
            r.latency_ms == Some(latency_ms),
            r.error is None,
    {
        HealthResult {
            connection_id,
            status: HealthStatus::Online,
            latency_ms: Some(latency_ms),
            error: None,
            checked_at: now_rfc3339(),
        }
    }

    pub fn offline(connection_id: ConnectionId, error: Option<String>) -> (r: HealthResult)
        ensures
            r.connection_id == connection_id,
            r.status == HealthStatus::Offline,
            r.latency_ms is None,
            r.error == error,
    {
        HealthResult {
            connection_id,
            status: HealthStatus::Offline,
            latency_ms: None,
            error,
            checked_at: now_rfc3339(),
        }
    }

    pub fn unknown(connection_id: ConnectionId) -> (r: HealthResult)
        ensures
            r.connection_id == connection_id,
            r.status == HealthStatus::Unknown,
            r.latency_ms is None,
            r.error is None,
    {
        HealthResult {
            connection_id,
            status: HealthStatus::Unknown,
            latency_ms: None,
            error: None,
            checked_at: now_rfc3339(),
        }
    }
}

/// Whether an HTTP status code counts as a healthy response:
/// any code in the 2xx (success) or 3xx (redirection) range.
pub open spec fn spec_http_healthy(status: u16) -> bool {
    200 <= status < 400
}

/// Classifies an HTTP status code: 2xx and 3xx responses are healthy.
pub fn http_status_is_healthy(status: u16) -> (r: bool)
    ensures
        r == spec_http_healthy(status),
{
    200 <= status && status < 400
}

/// Classifies the response to an HTTP probe: a 2xx or 3xx status is
/// online with the measured latency; any other status is offline
/// with the message `HTTP <code>`.
pub fn classify_http_response(connection_id: ConnectionId, status: u16, latency_ms: u64) -> (r:
    HealthResult)
    ensures
        r.connection_id == connection_id,
        spec_http_healthy(status) ==> {
            &&& r.status == HealthStatus::Online
            &&& r.latency_ms == Some(latency_ms)
            &&& r.error is None
        },
        !spec_http_healthy(status) ==> {
            &&& r.status == HealthStatus::Offline
            &&& r.latency_ms is None
            &&& r.error matches Some(m) && m@ == "HTTP "@ + dec_str(status as nat)
        },
{
    if http_status_is_healthy(status) {
        HealthResult::online(connection_id, latency_ms)
    } else {
        let code = crate::text::u16_to_string(status);
        let message = String::from_str("HTTP ").concat(code.as_str());
        HealthResult::offline(connection_id, Some(message))
    }
}

/// What happened when a raw TCP connection to `host:port` was tried.
#[derive(Debug, Clone)]
pub enum TcpProbeOutcome {
    /// The connection was established within the timeout.
    Connected { latency_ms: u64 },
    /// The resolver failed; its error text.
    ResolveFailed { message: String },
    /// The resolver returned no address.
    NoAddress,
    /// The connection attempt failed; the error text.
    ConnectFailed { message: String },
    /// The timeout elapsed before the connection was established.
    TimedOut,
}

/// Classifies the outcome of a TCP probe into a health result.
pub fn classify_tcp_outcome(connection_id: ConnectionId, outcome: TcpProbeOutcome) -> (r:
    HealthResult)
    ensures
        r.connection_id == connection_id,
        match outcome {
            TcpProbeOutcome::Connected { latency_ms } => {
                &&& r.status == HealthStatus::Online
                &&& r.latency_ms == Some(latency_ms)
                &&& r.error is None
            },
            TcpProbeOutcome::ResolveFailed { message } => {
                &&& r.status == HealthStatus::Offline
                &&& r.latency_ms is None
                &&& r.error == Some(message)
            },
            TcpProbeOutcome::NoAddress => {
                &&& r.status == HealthStatus::Offline
                &&& r.latency_ms is None
                &&& r.error matches Some(m) && m@ == "Could not resolve host"@
            },
            TcpProbeOutcome::ConnectFailed { message } => {
                &&& r.status == HealthStatus::Offline
                &&& r.latency_ms is None
                &&& r.error == Some(message)
            },
            TcpProbeOutcome::TimedOut => {
                &&& r.status == HealthStatus::Offline
                &&& r.latency_ms is None
                &&& r.error matches Some(m) && m@ == "Connection timed out"@
            },
        },
{
    match outcome {
        TcpProbeOutcome::Connected { latency_ms } => HealthResult::online(
            connection_id,
            latency_ms,
        ),
        TcpProbeOutcome::ResolveFailed { message } => HealthResult::offline(
            connection_id,
            Some(message),
        ),
        TcpProbeOutcome::NoAddress => HealthResult::offline(
            connection_id,
            Some(String::from_str("Could not resolve host")),
        ),
        TcpProbeOutcome::ConnectFailed { message } => HealthResult::offline(
            connection_id,
            Some(message),
        ),
        TcpProbeOutcome::TimedOut => HealthResult::offline(
            connection_id,
            Some(String::from_str("Connection timed out")),
        ),
    }
}

/// `s` with every trailing `/` removed.
pub open spec fn trim_trailing_slashes(s: Seq<char>) -> Seq<char>
    decreases s.len(),
{
    if s.len() > 0 && s.last() == '/' {
        trim_trailing_slashes(s.drop_last())
    } else {
        s
    }
}

/// The URL actually requested by a website probe: when a check path
/// is configured, the base URL with its trailing slashes trimmed,
/// concatenated with the path; otherwise the base URL unchanged.
pub open spec fn spec_effective_url(url: Seq<char>, check_path: Option<Seq<char>>) -> Seq<char> {
    match check_path {
        Some(p) => trim_trailing_slashes(url) + p,
        None => url,
    }
}

pub fn effective_url(url: &str, check_path: Option<&str>) -> (r: String)
    ensures
        match check_path {
            Some(p) => r@ == spec_effective_url(url@, Some(p@)),
            None => r@ == spec_effective_url(url@, None),
        },
{
    match check_path {
        None => String::from_str(url),
        Some(p) => {
            let mut cut: usize = url.unicode_len();
            proof {
                assert(url@.subrange(0, url@.len() as int) == url@);
            }
            while cut > 0 && url.get_char(cut - 1) == '/'
                invariant
                    cut as int <= url@.len(),
                    trim_trailing_slashes(url@) == trim_trailing_slashes(
                        url@.subrange(0, cut as int),
                    ),
                decreases cut,
            {
                cut = cut - 1;
                proof {
                    assert(url@.subrange(0, cut as int + 1).drop_last() == url@.subrange(
                        0,
                        cut as int,
                    ));
                }
            }
            proof {
                assert(trim_trailing_slashes(url@.subrange(0, cut as int)) == url@.subrange(
                    0,
                    cut as int,
                ));
            }
            let base = url.substring_char(0, cut);
            String::from_str(base).concat(p)
        },
    }
}

/// How to probe a connection: websites get an HTTP request to their
/// effective URL; SSH endpoints (and any non-HTTP target) get a raw
/// TCP connection to `host:port`.
#[derive(Debug, Clone)]
pub enum ProbePlan {
    Http { url: String },
    Tcp { host: String, port: u16 },
}

/// Chooses the probe for a connection from its configuration.
pub fn probe_plan(conn: &Connection) -> (r: ProbePlan)
    ensures
        match conn.config {
            ConnectionConfig::Website { url, check_path } => {
                &&& r matches ProbePlan::Http { url: u }
                &&& match check_path {
                    Some(p) => u@ == spec_effective_url(url@, Some(p@)),
                    None => u@ == spec_effective_url(url@, None),
                }
            },
            ConnectionConfig::Ssh { host, port, .. } => r matches ProbePlan::Tcp {
                host: h,
                port: po,
            } && h@ == host@ && po == port,
        },
{
    match &conn.config {
        ConnectionConfig::Website { url, check_path } => {
            let path: Option<&str> = match check_path {
                Some(p) => Some(p.as_str()),
                None => None,
            };
            ProbePlan::Http { url: effective_url(url.as_str(), path) }
        },
        ConnectionConfig::Ssh { host, port, .. } => ProbePlan::Tcp {
            host: host.clone(),
            port: *port,
        },
    }
}

} // verus!
