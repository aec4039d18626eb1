//! The probe map, and how a response of the status service changes it.
use vstd::prelude::*;
use crate::chunk::{decode, decode_spec};
use crate::replica::ReplicaURL;
use crate::text::{decimal_of, decimal_string, same_text, starts_with};

verus! {

/// Number of attempts to fetch the map that may follow the first one.
pub const RETRY_ACQUIRE_TIMES: u8 = 2;

/// Seconds to wait before a new attempt to fetch the map.
pub const RETRY_ACQUIRE_AFTER_SECONDS: u64 = 5;

/// The map of what to probe, with the cursor of the last synchronization.
pub struct ProbeMap {
    pub date: Option<u64>,
    pub metrics: Option<MapMetrics>,
    pub services: Vec<MapService>,
}

/// The thresholds that the status service hands out. Only the local ones
/// are used by the probes.
pub struct MapMetrics {
    pub poll: MapMetricsPoll,
    pub local: MapMetricsLocal,
}

pub struct MapMetricsPoll {
    pub retry: u8,
    pub delay_dead: u64,
    pub delay_sick: u64,
}

/// Local probe thresholds: the number of retries of a dead replica, the
/// timeout in seconds, and the latency in seconds from which a replica is sick.
pub struct MapMetricsLocal {
    pub retry: u8,
    pub delay_dead: u64,
    pub delay_sick: u64,
}

pub struct MapService {
    pub id: String,
    pub nodes: Vec<MapServiceNode>,
}

pub struct MapServiceNode {
    pub id: String,
    pub replicas: Option<Vec<ReplicaURL>>,
    pub http: Option<MapServiceNodeHTTP>,
}

/// HTTP rules of a node: the window of healthy status codes and a text
/// that a healthy response body holds.
pub struct MapServiceNodeHTTP {
    pub status: Option<MapServiceNodeHTTPStatus>,
    pub body: Option<MapServiceNodeHTTPBody>,
}

pub struct MapServiceNodeHTTPStatus {
    pub healthy_above: Option<u16>,
    pub healthy_below: Option<u16>,
}

pub struct MapServiceNodeHTTPBody {
    pub healthy_match: Option<String>,
}

#[derive(Debug, Clone, Copy, PartialEq, Eq, Structural)]
pub enum MapError {
    FailedRequest,
    NotAuthorized,
    InvalidStatus,
    InvalidData,
    ExhaustedAttempts,
}

impl ProbeMap {
    /// An empty map, with no cursor: the next fetch asks for the whole map.
    pub fn new() -> (r: ProbeMap)
        ensures
            r.date is None,
            r.metrics is None,
            r.services@.len() == 0,
    {
        ProbeMap { date: None, metrics: None, services: Vec::new() }
    }
}

/// The path of the map fetch: the whole map, or the changes since `date`.
pub open spec fn probe_path_spec(date: Option<u64>) -> Seq<char> {
    match date {
        None => "probes/local"@,
        Some(d) => "probes/local?since="@ + decimal_of(d as nat),
    }
}

pub fn probe_path(date: Option<u64>) -> (r: String)
    ensures
        r@ == probe_path_spec(date),
{
    match date {
        None => String::from_str("probes/local"),
        Some(d) => {
            let mut path = String::from_str("probes/local?since=");
            let digits = decimal_string(d);
            path.append(digits.as_str());
            path
        },
    }
}

/// What a response to the map fetch says, once its headers and body have
/// been checked. `Payload` holds the body, decoded, for the JSON parser.
pub enum SyncResponse {
    Payload(Vec<u8>),
    NotModified,
    Unauthorized,
    InvalidData,
    InvalidStatus,
}

pub open spec fn header_or(h: Option<&str>, default: Seq<char>) -> Seq<char> {
    match h {
        Some(v) => v@,
        None => default,
    }
}

/// The body of a `200` response as the JSON parser gets it: decoded when
/// it is chunked, as it came otherwise.
pub open spec fn payload_spec(chunked: bool, body: Seq<u8>) -> Seq<u8> {
    if chunked {
        decode_spec(body)
    } else {
        body
    }
}

/// Whether the headers and body of a `200` response carry map data: JSON,
/// sent as it is or chunked, and not empty.
pub open spec fn payload_acceptable(content_type: Seq<char>, transfer_encoding: Seq<char>, body: Seq<u8>) -> bool {
    &&& "application/json"@.is_prefix_of(content_type)
    &&& (transfer_encoding == "identity"@ || transfer_encoding == "chunked"@)
    &&& body.len() > 0
    &&& payload_spec(transfer_encoding == "chunked"@, body).len() > 0
}

/// Checks a response to the map fetch. A missing `Content-Type` counts as
/// empty, a missing `Transfer-Encoding` as `identity`.
pub fn check_response(
    status_code: u16,
    content_type: Option<&str>,
    transfer_encoding: Option<&str>,
    body: &[u8],
) -> (r: SyncResponse)
    ensures
        status_code == 200 ==> {
            let ct = header_or(content_type, ""@);
            let te = header_or(transfer_encoding, "identity"@);
            if payload_acceptable(ct, te, body@) {
                r matches SyncResponse::Payload(p) && p@ == payload_spec(te == "chunked"@, body@)
            } else {
                r is InvalidData
            }
        },
        status_code == 304 ==> r is NotModified,
        status_code == 401 ==> r is Unauthorized,
        status_code != 200 && status_code != 304 && status_code != 401 ==> r is InvalidStatus,
{
    if status_code == 304 {
        return SyncResponse::NotModified;
    }
    if status_code == 401 {
        return SyncResponse::Unauthorized;
    }
    if status_code != 200 {
        return SyncResponse::InvalidStatus;
    }
    let json_type = match content_type {
        Some(ct) => starts_with(ct, "application/json"),
        None => {
            proof {
                reveal_strlit("application/json");
                reveal_strlit("");
            }
            false
        },
    };
    let (identity, chunked) = match transfer_encoding {
        Some(te) => (same_text(te, "identity"), same_text(te, "chunked")),
        None => {
            proof {
                reveal_strlit("identity");
                reveal_strlit("chunked");
                assert("identity"@[0] != "chunked"@[0]);
            }
            (true, false)
        },
    };
    if !json_type || !(identity || chunked) || body.len() == 0 {
        return SyncResponse::InvalidData;
    }
    let payload = if chunked {
        decode(body)
    } else {
        vstd::slice::slice_to_vec(body)
    };
    if payload.len() == 0 {
        return SyncResponse::InvalidData;
    }
    SyncResponse::Payload(payload)
}

/// What came of one attempt to fetch the map. `Fresh` holds the map data
/// of a `200` response, once parsed.
pub enum SyncEvent {
    Fresh(ProbeMap),
    NotModified,
    Unauthorized,
    InvalidData,
    InvalidStatus,
    FailedRequest,
}

/// What to do after an attempt: stop with a result, or wait and try again.
#[derive(Debug, Clone, Copy)]
pub enum SyncStep {
    Done(Result<(), MapError>),
    RetryAfterDelay,
}

/// The cursor after a synchronization that brought `fresh`: it never moves
/// back.
pub open spec fn next_cursor(current: Option<u64>, fresh: Option<u64>) -> Option<u64> {
    match (current, fresh) {
        (Some(c), Some(f)) => if f >= c { Some(f) } else { Some(c) },
        (None, f) => f,
        (Some(c), None) => Some(c),
    }
}

/// The step that follows an attempt numbered `attempt` (the first is 0)
/// which ended in `event`.
pub open spec fn sync_step_spec(event: SyncEvent, attempt: u8) -> SyncStep {
    match event {
        SyncEvent::Fresh(_) => SyncStep::Done(Ok(())),
        SyncEvent::NotModified => SyncStep::Done(Ok(())),
        SyncEvent::Unauthorized => SyncStep::Done(Err(MapError::NotAuthorized)),
        SyncEvent::InvalidData => SyncStep::Done(Err(MapError::InvalidData)),
        _ => if attempt >= RETRY_ACQUIRE_TIMES {
            SyncStep::Done(Err(MapError::ExhaustedAttempts))
        } else {
            SyncStep::RetryAfterDelay
        },
    }
}

/// Whether `after` is the map `before` once `event` has been applied: fresh
/// data replaces the services and the metrics and moves the cursor; every
/// other event leaves the map as it was.
pub open spec fn map_after(before: ProbeMap, event: SyncEvent, after: ProbeMap) -> bool {
    match event {
        SyncEvent::Fresh(fresh) => {
            &&& after.services == fresh.services
            &&& after.metrics == fresh.metrics
            &&& after.date == next_cursor(before.date, fresh.date)
        },
        _ => after == before,
    }
}

/// Applies to the map what one attempt to fetch it brought, and says what
/// to do next.
pub fn acquire_step(map: &mut ProbeMap, event: SyncEvent, attempt: u8) -> (r: SyncStep)
    ensures
        map_after(*old(map), event, *final(map)),
        r == sync_step_spec(event, attempt),
{
    match event {
        SyncEvent::Fresh(fresh) => {
            let date = match (map.date, fresh.date) {
                (Some(c), Some(f)) => if f >= c { Some(f) } else { Some(c) },
                (None, f) => f,
                (Some(c), None) => Some(c),
            };
            map.date = date;
            map.services = fresh.services;
            map.metrics = fresh.metrics;
            SyncStep::Done(Ok(()))
        },
        SyncEvent::NotModified => SyncStep::Done(Ok(())),
        SyncEvent::Unauthorized => SyncStep::Done(Err(MapError::NotAuthorized)),
        SyncEvent::InvalidData => SyncStep::Done(Err(MapError::InvalidData)),
        _ => if attempt >= RETRY_ACQUIRE_TIMES {
            SyncStep::Done(Err(MapError::ExhaustedAttempts))
        } else {
            SyncStep::RetryAfterDelay
        },
    }
}

/// A `304` response leaves the map as it was; a `200` one with valid data
/// replaces its services and moves its cursor to the new date when that does
/// not move it back; a `401` one leaves the map as it was and ends the
/// synchronization with an error that no other response gives.
pub proof fn lemma_sync_outcomes(before: ProbeMap, after: ProbeMap, event: SyncEvent, attempt: u8)
    requires
        map_after(before, event, after),
    ensures
        event is NotModified ==> after.services == before.services && after.date == before.date
            && sync_step_spec(event, attempt) == SyncStep::Done(Ok(())),
        event matches SyncEvent::Fresh(fresh) ==> after.services == fresh.services,
        event matches SyncEvent::Fresh(fresh) ==> (fresh.date is Some && (before.date is None
            || fresh.date->0 >= before.date->0) ==> after.date == fresh.date),
        event is Unauthorized ==> after == before && sync_step_spec(event, attempt) == SyncStep::Done(
            Err(MapError::NotAuthorized),
        ),
        !(event is Unauthorized) ==> sync_step_spec(event, attempt) != SyncStep::Done(
            Err(MapError::NotAuthorized),
        ),
{
}

/// The cursor of the map never moves back.
pub proof fn lemma_cursor_monotonic(before: ProbeMap, after: ProbeMap, event: SyncEvent)
    requires
        map_after(before, event, after),
    ensures
        before.date matches Some(c) ==> (after.date matches Some(d) && d >= c),
{
}

} // verus!
