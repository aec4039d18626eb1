//! Reports of replica health to the status service: where they go, what
//! they hold, how they authenticate, and when a failed one is sent again.
use vstd::prelude::*;
use base64::Engine;
use crate::map::{MapService, MapServiceNode};
use crate::replica::ReplicaURL;
use crate::status::Status;
use vstd::utf8::{encode_scalar, encode_utf8};

verus! {

/// Number of attempts to send a report that may follow the first one.
pub const RETRY_STATUS_TIMES: u8 = 2;

/// Seconds to wait before a new attempt to send a report.
pub const RETRY_STATUS_AFTER_SECONDS: u64 = 5;

/// Connect, read and write timeout of requests to the status service, in seconds.
pub const REPORT_HTTP_CLIENT_TIMEOUT_SECONDS: u64 = 20;

/// Longest report token, in characters.
pub const MAX_TOKEN_CHARS: usize = 0x1000_0000;

/// The URL of `path` under the endpoint of the status service.
pub fn generate_url(endpoint: &str, path: &str) -> (r: String)
    ensures
        r@ == endpoint@ + "/"@ + path@,
{
    let mut url = String::from_str(endpoint);
    url.append("/");
    url.append(path);
    url
}

/// The path that reports on a node of a service go to.
pub fn report_path(service_id: &str, node_id: &str) -> (r: String)
    ensures
        r@ == "report/"@ + service_id@ + "/"@ + node_id@,
{
    let mut path = String::from_str("report/");
    path.append(service_id);
    path.append("/");
    path.append(node_id);
    path
}

/// The standard base64 encoding (with padding) of some bytes.
pub uninterp spec fn base64_of(b: Seq<u8>) -> Seq<char>;

/// Relies on `base64::engine::general_purpose::STANDARD.encode`, which
/// encodes bytes with the standard alphabet and padding. It panics when the
/// length of the encoding overflows `usize`, which the bound here rules out.
#[verifier::external_body]
fn base64_encode(b: &[u8]) -> (r: String)
    requires
        b@.len() <= usize::MAX / 2,
    ensures
        r@ == base64_of(b@),
{
    base64::engine::general_purpose::STANDARD.encode(b)
}

proof fn lemma_utf8_len_bound(chars: Seq<char>)
    ensures
        encode_utf8(chars).len() <= 4 * chars.len(),
    decreases chars.len(),
{
    if chars.len() > 0 {
        assert(encode_scalar(chars[0] as u32).len() <= 4);
        lemma_utf8_len_bound(chars.drop_first());
    }
}

/// The `Authorization` header of requests to the status service: HTTP basic
/// authentication with an empty user name and the token as password.
pub fn authorization_header(token: &str) -> (r: String)
    requires
        token@.len() <= MAX_TOKEN_CHARS,
    ensures
        r@ == "Basic "@ + base64_of(encode_utf8(":"@ + token@)),
{
    let mut credentials = String::from_str(":");
    credentials.append(token);
    let bytes = credentials.as_str().as_bytes();
    proof {
        reveal_strlit(":");
        lemma_utf8_len_bound(credentials@);
    }
    let encoded = base64_encode(bytes);
    let mut header = String::from_str("Basic ");
    header.append(encoded.as_str());
    header
}

/// One report: the path it goes to and the payload it carries.
pub struct Report {
    pub path: String,
    pub replica_id: String,
    pub health: Status,
    pub interval: u64,
}

/// The report of `status` for a replica of a node of a service, probed every
/// `interval` seconds. The replica is named by its address as the map wrote it.
pub fn status_report(
    service: &MapService,
    node: &MapServiceNode,
    replica: &ReplicaURL,
    status: Status,
    interval: u64,
) -> (r: Report)
    ensures
        r.path@ == "report/"@ + service.id@ + "/"@ + node.id@,
        r.replica_id@ == replica@.raw(),
        r.health == status,
        r.interval == interval,
{
    Report {
        path: report_path(service.id.as_str(), node.id.as_str()),
        replica_id: String::from_str(replica.get_raw()),
        health: status,
        interval,
    }
}

/// What to do after an attempt to send a report.
#[derive(Debug, Clone, Copy)]
pub enum ReportStep {
    Done(Result<(), ()>),
    RetryAfterDelay,
}

pub open spec fn report_step_spec(response_status: Option<u16>, attempt: u8) -> ReportStep {
    match response_status {
        Some(code) if 200 <= code < 300 => ReportStep::Done(Ok(())),
        _ => if attempt >= RETRY_STATUS_TIMES {
            ReportStep::Done(Err(()))
        } else {
            ReportStep::RetryAfterDelay
        },
    }
}

/// Judges the attempt numbered `attempt` (the first is 0) to send a report,
/// given the status code of the response, or `None` when no response came:
/// any `2xx` code is a success; every failure is retried alike until the
/// retries run out.
pub fn report_step(response_status: Option<u16>, attempt: u8) -> (r: ReportStep)
    ensures
        r == report_step_spec(response_status, attempt),
{
    match response_status {
        Some(code) if 200 <= code && code < 300 => ReportStep::Done(Ok(())),
        _ => if attempt >= RETRY_STATUS_TIMES {
            ReportStep::Done(Err(()))
        } else {
            ReportStep::RetryAfterDelay
        },
    }
}

} // verus!
