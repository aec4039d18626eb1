use crisp_status_local::map::{
    acquire_step, check_response, probe_path, MapError, MapMetrics, MapMetricsLocal, MapMetricsPoll, MapService,
    ProbeMap, SyncEvent, SyncResponse, SyncStep,
};

fn service(id: &str) -> MapService {
    MapService { id: id.to_string(), nodes: Vec::new() }
}

fn map_with(date: Option<u64>, ids: &[&str]) -> ProbeMap {
    let mut m = ProbeMap::new();
    m.date = date;
    m.services = ids.iter().map(|i| service(i)).collect();
    m
}

fn ids(m: &ProbeMap) -> Vec<String> {
    m.services.iter().map(|s| s.id.clone()).collect()
}

#[test]
fn probe_path_with_and_without_cursor() {
    assert_eq!(probe_path(None), "probes/local");
    assert_eq!(probe_path(Some(1546300800)), "probes/local?since=1546300800");
    assert_eq!(probe_path(Some(0)), "probes/local?since=0");
}

#[test]
fn not_modified_leaves_map() {
    let mut m = map_with(Some(10), &["a"]);
    let step = acquire_step(&mut m, SyncEvent::NotModified, 0);
    assert!(matches!(step, SyncStep::Done(Ok(()))));
    assert_eq!(m.date, Some(10));
    assert_eq!(ids(&m), vec!["a".to_string()]);
}

#[test]
fn fresh_data_replaces_services_and_moves_cursor() {
    let mut m = map_with(Some(10), &["a"]);
    let mut fresh = map_with(Some(20), &["b", "c"]);
    fresh.metrics = Some(MapMetrics {
        poll: MapMetricsPoll { retry: 1, delay_dead: 5, delay_sick: 2 },
        local: MapMetricsLocal { retry: 3, delay_dead: 6, delay_sick: 1 },
    });
    let step = acquire_step(&mut m, SyncEvent::Fresh(fresh), 0);
    assert!(matches!(step, SyncStep::Done(Ok(()))));
    assert_eq!(m.date, Some(20));
    assert_eq!(ids(&m), vec!["b".to_string(), "c".to_string()]);
    assert_eq!(m.metrics.as_ref().unwrap().local.retry, 3);
}

#[test]
fn fresh_data_from_empty_map() {
    let mut m = ProbeMap::new();
    let step = acquire_step(&mut m, SyncEvent::Fresh(map_with(Some(5), &["x"])), 1);
    assert!(matches!(step, SyncStep::Done(Ok(()))));
    assert_eq!(m.date, Some(5));
    assert_eq!(ids(&m), vec!["x".to_string()]);
}

#[test]
fn cursor_never_moves_back() {
    let mut m = map_with(Some(30), &["a"]);
    acquire_step(&mut m, SyncEvent::Fresh(map_with(Some(20), &["b"])), 0);
    assert_eq!(m.date, Some(30));
    assert_eq!(ids(&m), vec!["b".to_string()]);
    acquire_step(&mut m, SyncEvent::Fresh(map_with(None, &[])), 0);
    assert_eq!(m.date, Some(30));
}

#[test]
fn unauthorized_leaves_map_and_is_distinct() {
    let mut m = map_with(Some(10), &["a"]);
    let step = acquire_step(&mut m, SyncEvent::Unauthorized, 0);
    assert!(matches!(step, SyncStep::Done(Err(MapError::NotAuthorized))));
    assert_eq!(m.date, Some(10));
    assert_eq!(ids(&m), vec!["a".to_string()]);
}

#[test]
fn invalid_data_is_not_retried() {
    let mut m = map_with(None, &["a"]);
    let step = acquire_step(&mut m, SyncEvent::InvalidData, 0);
    assert!(matches!(step, SyncStep::Done(Err(MapError::InvalidData))));
    assert_eq!(ids(&m), vec!["a".to_string()]);
}

#[test]
fn transient_failures_retry_then_exhaust() {
    let mut m = map_with(None, &["a"]);
    assert!(matches!(acquire_step(&mut m, SyncEvent::FailedRequest, 0), SyncStep::RetryAfterDelay));
    assert!(matches!(acquire_step(&mut m, SyncEvent::InvalidStatus, 1), SyncStep::RetryAfterDelay));
    assert!(matches!(
        acquire_step(&mut m, SyncEvent::FailedRequest, 2),
        SyncStep::Done(Err(MapError::ExhaustedAttempts))
    ));
    assert_eq!(ids(&m), vec!["a".to_string()]);
}

#[test]
fn check_response_by_status() {
    assert!(matches!(check_response(304, None, None, b""), SyncResponse::NotModified));
    assert!(matches!(check_response(401, None, None, b""), SyncResponse::Unauthorized));
    assert!(matches!(check_response(500, None, None, b"{}"), SyncResponse::InvalidStatus));
}

#[test]
fn check_response_identity_json() {
    match check_response(200, Some("application/json; charset=utf-8"), None, b"{\"data\":1}") {
        SyncResponse::Payload(p) => assert_eq!(p, b"{\"data\":1}".to_vec()),
        _ => panic!("expected payload"),
    }
}

#[test]
fn check_response_chunked_json() {
    match check_response(200, Some("application/json"), Some("chunked"), b"2\r\n{}\r\n0\r\n\r\n") {
        SyncResponse::Payload(p) => assert_eq!(p, b"{}".to_vec()),
        _ => panic!("expected payload"),
    }
}

#[test]
fn check_response_rejects_bad_headers_and_empty_body() {
    assert!(matches!(check_response(200, Some("text/html"), None, b"{}"), SyncResponse::InvalidData));
    assert!(matches!(check_response(200, None, None, b"{}"), SyncResponse::InvalidData));
    assert!(matches!(check_response(200, Some("application/json"), Some("gzip"), b"{}"), SyncResponse::InvalidData));
    assert!(matches!(check_response(200, Some("application/json"), None, b""), SyncResponse::InvalidData));
    assert!(matches!(check_response(200, Some("application/json"), Some("chunked"), b"zz\r\n"), SyncResponse::InvalidData));
}
