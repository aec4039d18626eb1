use crisp_status_local::cycle::{cycle_next, CycleAction, CyclePhase, PROBE_CHECK_INTERVAL_SECONDS};
use crisp_status_local::config::{report_endpoint, server_log_level};
use crisp_status_local::status::{classify, Status};

#[test]
fn classify_unreachable_is_dead() {
    assert_eq!(classify(false, 0, None), Status::Dead);
    assert_eq!(classify(false, 50_000, Some(1)), Status::Dead);
}

#[test]
fn classify_latency_at_threshold_is_sick() {
    assert_eq!(classify(true, 3000, Some(3)), Status::Sick);
    assert_eq!(classify(true, 3500, Some(3)), Status::Sick);
    assert_eq!(classify(true, 0, Some(0)), Status::Sick);
}

#[test]
fn classify_latency_below_threshold_is_healthy() {
    assert_eq!(classify(true, 2999, Some(3)), Status::Healthy);
}

#[test]
fn classify_without_threshold_is_healthy() {
    assert_eq!(classify(true, u64::MAX, None), Status::Healthy);
}

#[test]
fn status_words() {
    assert_eq!(Status::Healthy.as_str(), "healthy");
    assert_eq!(Status::Sick.as_str(), "sick");
    assert_eq!(Status::Dead.as_str(), "dead");
}

#[test]
fn config_defaults() {
    assert_eq!(server_log_level(), "warn");
    assert_eq!(report_endpoint(), "https://report.crisp.watch/v1");
}

#[test]
fn cycle_phases_repeat_forever() {
    let (p, a) = cycle_next(CyclePhase::Starting);
    assert_eq!((p, a), (CyclePhase::Syncing, CycleAction::Sleep(2)));
    let (p, a) = cycle_next(p);
    assert_eq!((p, a), (CyclePhase::Dispatching, CycleAction::Sync));
    let (p, a) = cycle_next(p);
    assert_eq!((p, a), (CyclePhase::Holding, CycleAction::Dispatch));
    let (p, a) = cycle_next(p);
    assert_eq!((p, a), (CyclePhase::Syncing, CycleAction::Sleep(PROBE_CHECK_INTERVAL_SECONDS)));
    assert_eq!(PROBE_CHECK_INTERVAL_SECONDS, 120);
}
