//! Decisions of the poll dispatcher: which replicas to probe, how each
//! probe's outcome is judged, and when a dead replica is probed again.
use vstd::prelude::*;
use crate::chunk::{decode, decode_spec};
use crate::map::{MapMetrics, MapService, MapServiceNodeHTTP};
use crate::status::{classify, classify_spec, Status};
use crate::text::same_text;
use memmem::Searcher;
use vstd::utf8::{encode_scalar, encode_utf8};

verus! {

/// Lowest status code of a healthy HTTP replica, unless its node says otherwise.
pub const NODE_HTTP_HEALTHY_ABOVE: u16 = 200;

/// Status codes from this one up are unhealthy, unless the node says otherwise.
pub const NODE_HTTP_HEALTHY_BELOW: u16 = 400;

/// Ceiling of the ICMP ping timeout, in milliseconds.
pub const NODE_ICMP_TIMEOUT_MILLISECONDS: u64 = 1000;

/// Milliseconds to wait before probing a dead replica again.
pub const RETRY_REPLICA_AFTER_MILLISECONDS: u64 = 200;

/// Retries of a dead replica when the map holds no metrics.
pub const DEFAULT_RETRY_TIMES: u8 = 2;

/// Probe timeout, in seconds, when the map holds no metrics.
pub const DEFAULT_DEAD_TIMEOUT_SECONDS: u64 = 20;

// ---------------------------------------------------------------------------
// Thresholds

pub open spec fn retry_times_spec(metrics: Option<MapMetrics>) -> u8 {
    match metrics {
        Some(m) => m.local.retry,
        None => DEFAULT_RETRY_TIMES,
    }
}

pub fn retry_times(metrics: &Option<MapMetrics>) -> (r: u8)
    ensures
        r == retry_times_spec(*metrics),
{
    match metrics {
        Some(m) => m.local.retry,
        None => DEFAULT_RETRY_TIMES,
    }
}

pub open spec fn dead_timeout_spec(metrics: Option<MapMetrics>) -> u64 {
    match metrics {
        Some(m) => m.local.delay_dead,
        None => DEFAULT_DEAD_TIMEOUT_SECONDS,
    }
}

/// The timeout of one probe, in seconds.
pub fn acquire_dead_timeout(metrics: &Option<MapMetrics>) -> (r: u64)
    ensures
        r == dead_timeout_spec(*metrics),
{
    match metrics {
        Some(m) => m.local.delay_dead,
        None => DEFAULT_DEAD_TIMEOUT_SECONDS,
    }
}

/// The ICMP ping timeout in milliseconds: the probe timeout, but no more
/// than the ICMP ceiling.
pub fn icmp_timeout_ms(metrics: &Option<MapMetrics>) -> (r: u64)
    ensures
        r as int == if dead_timeout_spec(*metrics) as int * 1000 < NODE_ICMP_TIMEOUT_MILLISECONDS as int {
            dead_timeout_spec(*metrics) as int * 1000
        } else {
            NODE_ICMP_TIMEOUT_MILLISECONDS as int
        },
{
    let secs = acquire_dead_timeout(metrics);
    if secs >= 1 {
        NODE_ICMP_TIMEOUT_MILLISECONDS
    } else {
        0
    }
}

pub open spec fn sick_threshold_spec(metrics: Option<MapMetrics>) -> Option<nat> {
    match metrics {
        Some(m) => Some(m.local.delay_sick as nat),
        None => None,
    }
}

/// Judges one probe: `probe_latency_ms` is what the probe measured, if it
/// measures latency; otherwise the time the probe took, `elapsed_ms`, is
/// used. A sick threshold applies only when the map holds metrics.
pub fn replica_status(
    reachable: bool,
    probe_latency_ms: Option<u64>,
    elapsed_ms: u64,
    metrics: &Option<MapMetrics>,
) -> (r: Status)
    ensures
        r == classify_spec(
            reachable,
            match probe_latency_ms {
                Some(l) => l as nat,
                None => elapsed_ms as nat,
            },
            sick_threshold_spec(*metrics),
        ),
{
    let latency = match probe_latency_ms {
        Some(l) => l,
        None => elapsed_ms,
    };
    let threshold = match metrics {
        Some(m) => Some(m.local.delay_sick),
        None => None,
    };
    classify(reachable, latency, threshold)
}

// ---------------------------------------------------------------------------
// ICMP

pub open spec fn all_answered(results: Seq<Option<u64>>) -> bool {
    forall|k: int| 0 <= k < results.len() ==> (#[trigger] results[k]) is Some
}

/// The largest round-trip time among answered pings.
pub open spec fn max_rtt(results: Seq<Option<u64>>) -> u64
    decreases results.len(),
{
    if results.len() == 0 {
        0
    } else {
        let rest = max_rtt(results.drop_last());
        match results.last() {
            Some(v) => if v > rest { v } else { rest },
            None => rest,
        }
    }
}

/// Combines the pings sent to every address of a host (`None` for one that
/// stayed idle or failed, else its round-trip time in milliseconds): the
/// host is reachable only when it has addresses and all of them answered,
/// and its latency is then the largest round-trip time.
pub fn icmp_outcome(results: &Vec<Option<u64>>) -> (r: (bool, Option<u64>))
    ensures
        r.0 == (results@.len() > 0 && all_answered(results@)),
        r.0 ==> r.1 == Some(max_rtt(results@)),
        !r.0 ==> r.1 is None,
{
    if results.len() == 0 {
        return (false, None);
    }
    let mut max: u64 = 0;
    let mut i: usize = 0;
    while i < results.len()
        invariant
            i <= results@.len(),
            all_answered(results@.subrange(0, i as int)),
            max == max_rtt(results@.subrange(0, i as int)),
        decreases results@.len() - i,
    {
        assert(results@.subrange(0, i + 1).drop_last() =~= results@.subrange(0, i as int));
        match results[i] {
            Some(rtt) => {
                if rtt > max {
                    max = rtt;
                }
            },
            None => {
                assert(!all_answered(results@)) by {
                    assert(results@[i as int] is None);
                }
                return (false, None);
            },
        }
        i = i + 1;
    }
    assert(results@.subrange(0, results@.len() as int) =~= results@);
    (true, Some(max))
}

// ---------------------------------------------------------------------------
// HTTP

pub open spec fn healthy_window_spec(http: Option<MapServiceNodeHTTP>) -> (u16, u16) {
    match http {
        Some(h) => match h.status {
            Some(s) => (
                match s.healthy_above {
                    Some(a) => a,
                    None => NODE_HTTP_HEALTHY_ABOVE,
                },
                match s.healthy_below {
                    Some(b) => b,
                    None => NODE_HTTP_HEALTHY_BELOW,
                },
            ),
            None => (NODE_HTTP_HEALTHY_ABOVE, NODE_HTTP_HEALTHY_BELOW),
        },
        None => (NODE_HTTP_HEALTHY_ABOVE, NODE_HTTP_HEALTHY_BELOW),
    }
}

/// The window `[above, below)` of healthy status codes of a node.
pub fn healthy_window(http: &Option<MapServiceNodeHTTP>) -> (r: (u16, u16))
    ensures
        r == healthy_window_spec(*http),
{
    let mut above = NODE_HTTP_HEALTHY_ABOVE;
    let mut below = NODE_HTTP_HEALTHY_BELOW;
    if let Some(h) = http {
        if let Some(s) = &h.status {
            if let Some(a) = s.healthy_above {
                above = a;
            }
            if let Some(b) = s.healthy_below {
                below = b;
            }
        }
    }
    (above, below)
}

/// The text that a healthy response body must hold; an empty one counts as
/// none.
pub open spec fn body_match_spec(http: Option<MapServiceNodeHTTP>) -> Option<Seq<char>> {
    match http {
        Some(h) => match h.body {
            Some(b) => match b.healthy_match {
                Some(m) => if m@.len() > 0 { Some(m@) } else { None },
                None => None,
            },
            None => None,
        },
        None => None,
    }
}

pub fn body_healthy_match(http: &Option<MapServiceNodeHTTP>) -> (r: Option<&String>)
    ensures
        match r {
            Some(m) => body_match_spec(*http) == Some(m@),
            None => body_match_spec(*http) is None,
        },
{
    if let Some(h) = http {
        if let Some(b) = &h.body {
            if let Some(m) = &b.healthy_match {
                if m.as_str().unicode_len() > 0 {
                    return Some(m);
                }
            }
        }
    }
    None
}

/// The HTTP method of a probe: a body match needs the body (`GET`), a
/// status code alone does not (`HEAD`).
#[derive(Debug, Clone, Copy, PartialEq, Eq, Structural)]
pub enum HttpMethod {
    Get,
    Head,
}

pub fn http_method(http: &Option<MapServiceNodeHTTP>) -> (r: HttpMethod)
    ensures
        r == (if body_match_spec(*http) is Some { HttpMethod::Get } else { HttpMethod::Head }),
{
    match body_healthy_match(http) {
        Some(_) => HttpMethod::Get,
        None => HttpMethod::Head,
    }
}

pub open spec fn occurs_at(haystack: Seq<u8>, needle: Seq<u8>, i: int) -> bool {
    0 <= i && i + needle.len() <= haystack.len() && haystack.subrange(i, i + needle.len()) == needle
}

pub open spec fn occurs_in(haystack: Seq<u8>, needle: Seq<u8>) -> bool {
    exists|i: int| occurs_at(haystack, needle, i)
}

/// Relies on `memmem::TwoWaySearcher::search_in`, which gives the start of
/// an occurrence of the needle in the haystack, or `None` when there is none.
#[verifier::external_body]
fn find_bytes(haystack: &[u8], needle: &[u8]) -> (r: Option<usize>)
    requires
        needle@.len() > 0,
    ensures
        r is Some <==> occurs_in(haystack@, needle@),
        r matches Some(i) ==> occurs_at(haystack@, needle@, i as int),
{
    memmem::TwoWaySearcher::new(needle).search_in(haystack)
}

/// The body of an HTTP response as the match reads it: decoded when it is
/// chunked, as it came otherwise.
pub open spec fn http_body_spec(transfer_encoding: Option<Seq<char>>, body: Seq<u8>) -> Seq<u8> {
    if transfer_encoding == Some("chunked"@) {
        decode_spec(body)
    } else {
        body
    }
}

pub open spec fn opt_str_view(s: Option<&str>) -> Option<Seq<char>> {
    match s {
        Some(v) => Some(v@),
        None => None,
    }
}

/// Whether an HTTP replica that answered with `status_code` is reachable:
/// the code lies in the node's healthy window and, when the node has a body
/// match, the (decoded) body is not empty and holds the match, byte for byte.
pub open spec fn http_reachable_spec(
    status_code: u16,
    http: Option<MapServiceNodeHTTP>,
    transfer_encoding: Option<Seq<char>>,
    body: Seq<u8>,
) -> bool {
    let (above, below) = healthy_window_spec(http);
    &&& above <= status_code < below
    &&& match body_match_spec(http) {
        None => true,
        Some(m) => body.len() > 0 && occurs_in(http_body_spec(transfer_encoding, body), encode_utf8(m)),
    }
}

/// Judges the response of an HTTP replica.
pub fn http_reachable(
    status_code: u16,
    http: &Option<MapServiceNodeHTTP>,
    transfer_encoding: Option<&str>,
    body: &[u8],
) -> (r: bool)
    ensures
        r == http_reachable_spec(status_code, *http, opt_str_view(transfer_encoding), body@),
{
    let (above, below) = healthy_window(http);
    if !(above <= status_code && status_code < below) {
        return false;
    }
    match body_healthy_match(http) {
        None => true,
        Some(m) => {
            if body.len() == 0 {
                return false;
            }
            let chunked = match transfer_encoding {
                Some(te) => same_text(te, "chunked"),
                None => false,
            };
            let needle = m.as_str().as_bytes();
            proof {
                assert(encode_scalar(m@[0] as u32).len() > 0);
            }
            if chunked {
                let decoded = decode(body);
                find_bytes(decoded.as_slice(), needle).is_some()
            } else {
                find_bytes(body, needle).is_some()
            }
        },
    }
}

// ---------------------------------------------------------------------------
// Retries

/// What to do after a probe of a replica: keep its status, or wait and
/// probe it again.
#[derive(Debug, Clone, Copy, PartialEq, Eq, Structural)]
pub enum PollStep {
    Accept(Status),
    RetryAfterDelay,
}

/// Only a dead replica is probed again, and only while retries are left:
/// the probe numbered `attempt` (the first is 0) may be followed by another
/// when `attempt < retry_times`.
pub open spec fn poll_step_spec(outcome: Status, attempt: nat, retry_times: nat) -> PollStep {
    if outcome != Status::Dead {
        PollStep::Accept(outcome)
    } else if attempt >= retry_times {
        PollStep::Accept(Status::Dead)
    } else {
        PollStep::RetryAfterDelay
    }
}

pub fn poll_step(outcome: Status, attempt: u8, retry_times: u8) -> (r: PollStep)
    ensures
        r == poll_step_spec(outcome, attempt as nat, retry_times as nat),
{
    match outcome {
        Status::Dead => if attempt >= retry_times {
            PollStep::Accept(Status::Dead)
        } else {
            PollStep::RetryAfterDelay
        },
        _ => PollStep::Accept(outcome),
    }
}

/// Probing a replica whose probes give `outcomes` in turn, from the probe
/// numbered `attempt` on: the status kept and the number of probes made in
/// all. A run that outlasts `outcomes` ends dead.
pub open spec fn poll_run(outcomes: Seq<Status>, attempt: nat, retry_times: nat) -> (Status, nat)
    decreases outcomes.len() - attempt,
{
    if attempt >= outcomes.len() {
        (Status::Dead, attempt)
    } else {
        match poll_step_spec(outcomes[attempt as int], attempt, retry_times) {
            PollStep::Accept(s) => (s, attempt + 1),
            PollStep::RetryAfterDelay => poll_run(outcomes, attempt + 1, retry_times),
        }
    }
}

proof fn lemma_poll_run_dead_prefix(outcomes: Seq<Status>, attempt: nat, n: nat, retry_times: nat)
    requires
        attempt < n <= outcomes.len(),
        n <= retry_times + 1,
        forall|k: int| attempt <= k < n - 1 ==> #[trigger] outcomes[k] == Status::Dead,
        outcomes[n - 1] != Status::Dead,
    ensures
        poll_run(outcomes, attempt, retry_times) == (outcomes[n - 1], n),
    decreases n - attempt,
{
    if attempt + 1 < n {
        lemma_poll_run_dead_prefix(outcomes, attempt + 1, n, retry_times);
    }
}

proof fn lemma_poll_run_all_dead(outcomes: Seq<Status>, attempt: nat, retry_times: nat)
    requires
        attempt <= retry_times,
        retry_times + 1 <= outcomes.len(),
        forall|k: int| attempt <= k <= retry_times ==> #[trigger] outcomes[k] == Status::Dead,
    ensures
        poll_run(outcomes, attempt, retry_times) == (Status::Dead, retry_times + 1),
    decreases retry_times - attempt,
{
    if attempt < retry_times {
        lemma_poll_run_all_dead(outcomes, attempt + 1, retry_times);
    }
}

/// A replica whose first `n - 1` probes find it dead and whose `n`-th does
/// not, with `n` no more than one plus the retries, ends with the status of
/// the `n`-th probe after exactly `n` probes. One that every probe finds
/// dead ends dead after one probe plus the retries, and no more.
pub proof fn lemma_poll_retries(outcomes: Seq<Status>, n: nat, retry_times: nat)
    ensures
        1 <= n <= outcomes.len() && n <= retry_times + 1 && (forall|k: int|
            0 <= k < n - 1 ==> #[trigger] outcomes[k] == Status::Dead) && outcomes[n - 1] != Status::Dead
            ==> poll_run(outcomes, 0, retry_times) == (outcomes[n - 1], n),
        retry_times + 1 <= outcomes.len() && (forall|k: int|
            0 <= k <= retry_times ==> #[trigger] outcomes[k] == Status::Dead) ==> poll_run(outcomes, 0, retry_times)
            == (Status::Dead, retry_times + 1),
{
    if 1 <= n <= outcomes.len() && n <= retry_times + 1 && (forall|k: int|
        0 <= k < n - 1 ==> #[trigger] outcomes[k] == Status::Dead) && outcomes[n - 1] != Status::Dead {
        lemma_poll_run_dead_prefix(outcomes, 0, n, retry_times);
    }
    if retry_times + 1 <= outcomes.len() && (forall|k: int|
        0 <= k <= retry_times ==> #[trigger] outcomes[k] == Status::Dead) {
        lemma_poll_run_all_dead(outcomes, 0, retry_times);
    }
}

/// With the default window and no body match, a `200` response is reachable
/// whatever its body; a `404` response is unreachable whatever the node's
/// body match and the body; with the default window and a body match that
/// the (decoded) body does not hold, a `200` response is unreachable.
pub proof fn lemma_http_verdicts(
    http: Option<MapServiceNodeHTTP>,
    transfer_encoding: Option<Seq<char>>,
    body: Seq<u8>,
)
    ensures
        healthy_window_spec(http) == (NODE_HTTP_HEALTHY_ABOVE, NODE_HTTP_HEALTHY_BELOW) && body_match_spec(http) is None
            ==> http_reachable_spec(200, http, transfer_encoding, body),
        healthy_window_spec(http) == (NODE_HTTP_HEALTHY_ABOVE, NODE_HTTP_HEALTHY_BELOW)
            ==> !http_reachable_spec(404, http, transfer_encoding, body),
        healthy_window_spec(http) == (NODE_HTTP_HEALTHY_ABOVE, NODE_HTTP_HEALTHY_BELOW) && body_match_spec(http) is Some
            && !occurs_in(http_body_spec(transfer_encoding, body), encode_utf8(body_match_spec(http)->0))
            ==> !http_reachable_spec(200, http, transfer_encoding, body),
{
}

// ---------------------------------------------------------------------------
// Dispatch

/// One replica to probe: the indices of its service, of its node in the
/// service, and of the replica in the node.
#[derive(Debug, Clone, Copy, PartialEq, Eq, Structural)]
pub struct PollTarget {
    pub service: usize,
    pub node: usize,
    pub replica: usize,
}

/// Whether `t` names a replica of `services`. Nodes without a list of
/// replicas have none.
pub open spec fn is_target(services: Seq<MapService>, t: PollTarget) -> bool {
    &&& t.service < services.len()
    &&& t.node < services[t.service as int].nodes@.len()
    &&& services[t.service as int].nodes@[t.node as int].replicas matches Some(rs)
    &&& t.replica < rs@.len()
}

/// The order in which replicas are probed: service by service, node by
/// node, replica by replica, as the map lists them.
pub open spec fn target_before(a: PollTarget, b: PollTarget) -> bool {
    ||| a.service < b.service
    ||| a.service == b.service && a.node < b.node
    ||| a.service == b.service && a.node == b.node && a.replica < b.replica
}

/// Every replica of the map, each once, in the order in which they are probed.
pub fn poll_targets(services: &Vec<MapService>) -> (r: Vec<PollTarget>)
    ensures
        forall|k: int| 0 <= k < r@.len() ==> is_target(services@, #[trigger] r@[k]),
        forall|k: int, l: int| 0 <= k < l < r@.len() ==> target_before(#[trigger] r@[k], #[trigger] r@[l]),
        forall|t: PollTarget| is_target(services@, t) ==> r@.contains(t),
{
    let mut out: Vec<PollTarget> = Vec::new();
    let mut i: usize = 0;
    while i < services.len()
        invariant
            i <= services@.len(),
            forall|k: int| 0 <= k < out@.len() ==> is_target(services@, #[trigger] out@[k]),
            forall|k: int| 0 <= k < out@.len() ==> (#[trigger] out@[k]).service < i,
            forall|k: int, l: int| 0 <= k < l < out@.len() ==> target_before(#[trigger] out@[k], #[trigger] out@[l]),
            forall|t: PollTarget| is_target(services@, t) && t.service < i ==> out@.contains(t),
        decreases services@.len() - i,
    {
        let nodes = &services[i].nodes;
        let mut j: usize = 0;
        while j < nodes.len()
            invariant
                i < services@.len(),
                nodes@ == services@[i as int].nodes@,
                j <= nodes@.len(),
                forall|k: int| 0 <= k < out@.len() ==> is_target(services@, #[trigger] out@[k]),
                forall|k: int| 0 <= k < out@.len() ==> target_before(#[trigger] out@[k], PollTarget { service: i, node: j, replica: 0 }),
                forall|k: int, l: int| 0 <= k < l < out@.len() ==> target_before(#[trigger] out@[k], #[trigger] out@[l]),
                forall|t: PollTarget| is_target(services@, t) && target_before(t, PollTarget { service: i, node: j, replica: 0 }) ==> out@.contains(t),
            decreases nodes@.len() - j,
        {
            if let Some(replicas) = &nodes[j].replicas {
                let mut k: usize = 0;
                while k < replicas.len()
                    invariant
                        i < services@.len(),
                        j < services@[i as int].nodes@.len(),
                        services@[i as int].nodes@[j as int].replicas == Some(*replicas),
                        k <= replicas@.len(),
                        forall|m: int| 0 <= m < out@.len() ==> is_target(services@, #[trigger] out@[m]),
                        forall|m: int| 0 <= m < out@.len() ==> target_before(#[trigger] out@[m], PollTarget { service: i, node: j, replica: k }),
                        forall|m: int, l: int| 0 <= m < l < out@.len() ==> target_before(#[trigger] out@[m], #[trigger] out@[l]),
                        forall|t: PollTarget| is_target(services@, t) && target_before(t, PollTarget { service: i, node: j, replica: k }) ==> out@.contains(t),
                    decreases replicas@.len() - k,
                {
                    let t = PollTarget { service: i, node: j, replica: k };
                    let ghost before = out@;
                    out.push(t);
                    assert(out@[before.len() as int] == t);
                    assert forall|u: PollTarget| is_target(services@, u) && target_before(u, PollTarget { service: i, node: j, replica: (k + 1) as usize }) implies out@.contains(u) by {
                        if u == t {
                            assert(out@[before.len() as int] == u);
                        } else {
                            assert(target_before(u, t));
                            assert(before.contains(u));
                            let m = choose|m: int| 0 <= m < before.len() && before[m] == u;
                            assert(out@[m] == u);
                        }
                    }
                    assert forall|m: int| 0 <= m < out@.len() implies is_target(services@, #[trigger] out@[m]) by {
                        if m < before.len() {
                            assert(out@[m] == before[m]);
                        }
                    }
                    k = k + 1;
                }
            }
            j = j + 1;
        }
        i = i + 1;
    }
    out
}

} // verus!
