use diane::lifecycle::{lc_step, LcEvent, LcPhase};

/// The happy path from cold boot through a recording to deep sleep, and
/// the wake edge back to boot.
#[test]
fn happy_path_to_sleep_and_wake() {
    let mut p = LcPhase::Boot;
    p = lc_step(p, LcEvent::PowerOn);
    assert_eq!(p, LcPhase::StorageInit);
    p = lc_step(p, LcEvent::InitSucceeded);
    assert_eq!(p, LcPhase::Mounted);
    p = lc_step(p, LcEvent::PrepareSucceeded);
    assert_eq!(p, LcPhase::Prepared);
    p = lc_step(p, LcEvent::CaptureStarted);
    assert_eq!(p, LcPhase::Warmup);
    p = lc_step(p, LcEvent::WarmupDone);
    assert_eq!(p, LcPhase::Recording);
    p = lc_step(p, LcEvent::StopObserved);
    assert_eq!(p, LcPhase::Stopping);
    p = lc_step(p, LcEvent::StopReleased);
    assert_eq!(p, LcPhase::Finalizing);
    p = lc_step(p, LcEvent::FinalizeSucceeded);
    assert_eq!(p, LcPhase::Sleeping);
    p = lc_step(p, LcEvent::WakeEdge);
    assert_eq!(p, LcPhase::Boot);
}

/// Storage bring-up failures retry in place, unboundedly.
#[test]
fn storage_init_retries() {
    let mut p = LcPhase::StorageInit;
    for _ in 0..5 {
        p = lc_step(p, LcEvent::InitFailed);
        assert_eq!(p, LcPhase::StorageInit);
    }
    p = lc_step(p, LcEvent::InitSucceeded);
    assert_eq!(p, LcPhase::Mounted);
}

/// Failures outside storage bring-up are fatal.
#[test]
fn other_failures_halt() {
    assert_eq!(lc_step(LcPhase::Mounted, LcEvent::PrepareFailed), LcPhase::Halted);
    assert_eq!(lc_step(LcPhase::Prepared, LcEvent::PrepareFailed), LcPhase::Halted);
    assert_eq!(lc_step(LcPhase::Recording, LcEvent::WriteFailed), LcPhase::Halted);
    assert_eq!(lc_step(LcPhase::Finalizing, LcEvent::FinalizeFailed), LcPhase::Halted);
}

#[test]
fn halted_absorbs_everything() {
    assert_eq!(lc_step(LcPhase::Halted, LcEvent::PowerOn), LcPhase::Halted);
    assert_eq!(lc_step(LcPhase::Halted, LcEvent::WakeEdge), LcPhase::Halted);
    assert_eq!(lc_step(LcPhase::Halted, LcEvent::InitSucceeded), LcPhase::Halted);
}

/// Unexpected events do not move the machine.
#[test]
fn unexpected_events_ignored() {
    assert_eq!(lc_step(LcPhase::Boot, LcEvent::WakeEdge), LcPhase::Boot);
    assert_eq!(lc_step(LcPhase::Recording, LcEvent::PowerOn), LcPhase::Recording);
    assert_eq!(lc_step(LcPhase::Sleeping, LcEvent::StopObserved), LcPhase::Sleeping);
}
