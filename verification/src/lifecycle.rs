//! Lifecycle controller: the phase sequence from cold boot to deep sleep.
//!
//! The controller owns the session: it drives storage bring-up (the only
//! phase that retries), preparation of the session file, the warm-up and
//! recording phases of the capture loop, the stop debounce, finalization,
//! and entry into deep sleep, from which a wake edge restarts at boot.
//! Failures anywhere but storage bring-up are fatal and halt the device.

use vstd::prelude::*;

verus! {

/// Phase of the device lifecycle.
#[derive(Debug, PartialEq, Eq, Structural, Clone, Copy)]
pub enum LcPhase {
    /// Cold start; nothing initialized.
    Boot,
    /// Low-level medium bring-up; retried after a fixed delay, unboundedly.
    StorageInit,
    /// Medium initialized and volume mounted.
    Mounted,
    /// Directory ensured, filename allocated, placeholder header written.
    Prepared,
    /// Capture running, initial frames being discarded.
    Warmup,
    /// Capture running, frames forwarded and counted.
    Recording,
    /// Stop observed asserted; waiting for its sustained release.
    Stopping,
    /// Size fields patched, file closed, volume released.
    Finalizing,
    /// Deep low-power state; only a wake edge leaves it.
    Sleeping,
    /// Fatal failure; the device stops responding.
    Halted,
}

/// Event the lifecycle reacts to.
#[derive(Debug, PartialEq, Eq, Structural, Clone, Copy)]
pub enum LcEvent {
    /// Execution entered the process entry point.
    PowerOn,
    /// Low-level medium bring-up failed (transient; retried).
    InitFailed,
    /// Low-level medium bring-up succeeded and the volume mounted.
    InitSucceeded,
    /// Directory, filename and header are in place.
    PrepareSucceeded,
    /// Opening the volume, the directory or writing the header failed.
    PrepareFailed,
    /// The capture loop started polling the source.
    CaptureStarted,
    /// The warm-up discard budget is exhausted.
    WarmupDone,
    /// The stop control was observed asserted after a flushed chunk.
    StopObserved,
    /// The stop control was observed released again.
    StopReleased,
    /// An append or flush of sample data failed.
    WriteFailed,
    /// Size fields patched and file closed.
    FinalizeSucceeded,
    /// Patching or closing the file failed.
    FinalizeFailed,
    /// A configured edge on the wake pin fired.
    WakeEdge,
}

/// The transition function. An event a phase does not expect leaves the
/// phase unchanged; `Halted` absorbs everything.
pub open spec fn lc_next(p: LcPhase, e: LcEvent) -> LcPhase {
    match (p, e) {
        (LcPhase::Boot, LcEvent::PowerOn) => LcPhase::StorageInit,
        (LcPhase::StorageInit, LcEvent::InitFailed) => LcPhase::StorageInit,
        (LcPhase::StorageInit, LcEvent::InitSucceeded) => LcPhase::Mounted,
        (LcPhase::Mounted, LcEvent::PrepareSucceeded) => LcPhase::Prepared,
        (LcPhase::Mounted, LcEvent::PrepareFailed) => LcPhase::Halted,
        (LcPhase::Prepared, LcEvent::CaptureStarted) => LcPhase::Warmup,
        (LcPhase::Prepared, LcEvent::PrepareFailed) => LcPhase::Halted,
        (LcPhase::Warmup, LcEvent::WarmupDone) => LcPhase::Recording,
        (LcPhase::Recording, LcEvent::StopObserved) => LcPhase::Stopping,
        (LcPhase::Recording, LcEvent::WriteFailed) => LcPhase::Halted,
        (LcPhase::Stopping, LcEvent::StopReleased) => LcPhase::Finalizing,
        (LcPhase::Finalizing, LcEvent::FinalizeSucceeded) => LcPhase::Sleeping,
        (LcPhase::Finalizing, LcEvent::FinalizeFailed) => LcPhase::Halted,
        (LcPhase::Sleeping, LcEvent::WakeEdge) => LcPhase::Boot,
        (LcPhase::Halted, _) => LcPhase::Halted,
        (_, _) => p,
    }
}

/// Whether phase `p` is the one that can raise failure event `e`.
pub open spec fn raises_failure(p: LcPhase, e: LcEvent) -> bool {
    ||| (p == LcPhase::StorageInit && e == LcEvent::InitFailed)
    ||| ((p == LcPhase::Mounted || p == LcPhase::Prepared) && e == LcEvent::PrepareFailed)
    ||| (p == LcPhase::Recording && e == LcEvent::WriteFailed)
    ||| (p == LcPhase::Finalizing && e == LcEvent::FinalizeFailed)
}

/// Advance the lifecycle by one event.
pub fn lc_step(p: LcPhase, e: LcEvent) -> (r: LcPhase)
    ensures
        r == lc_next(p, e),
{
    match (p, e) {
        (LcPhase::Boot, LcEvent::PowerOn) => LcPhase::StorageInit,
        (LcPhase::StorageInit, LcEvent::InitFailed) => LcPhase::StorageInit,
        (LcPhase::StorageInit, LcEvent::InitSucceeded) => LcPhase::Mounted,
        (LcPhase::Mounted, LcEvent::PrepareSucceeded) => LcPhase::Prepared,
        (LcPhase::Mounted, LcEvent::PrepareFailed) => LcPhase::Halted,
        (LcPhase::Prepared, LcEvent::CaptureStarted) => LcPhase::Warmup,
        (LcPhase::Prepared, LcEvent::PrepareFailed) => LcPhase::Halted,
        (LcPhase::Warmup, LcEvent::WarmupDone) => LcPhase::Recording,
        (LcPhase::Recording, LcEvent::StopObserved) => LcPhase::Stopping,
        (LcPhase::Recording, LcEvent::WriteFailed) => LcPhase::Halted,
        (LcPhase::Stopping, LcEvent::StopReleased) => LcPhase::Finalizing,
        (LcPhase::Finalizing, LcEvent::FinalizeSucceeded) => LcPhase::Sleeping,
        (LcPhase::Finalizing, LcEvent::FinalizeFailed) => LcPhase::Halted,
        (LcPhase::Sleeping, LcEvent::WakeEdge) => LcPhase::Boot,
        (LcPhase::Halted, _) => LcPhase::Halted,
        (_, _) => p,
    }
}

/// Finalization is reachable from exactly one phase: the stop debounce.
/// Together with the container writer's one-shot finalize this prevents a
/// double patch-up of the size fields.
pub proof fn lemma_finalizing_only_from_stopping(p: LcPhase, e: LcEvent)
    ensures
        p != LcPhase::Finalizing && lc_next(p, e) == LcPhase::Finalizing ==> p
            == LcPhase::Stopping && e == LcEvent::StopReleased,
{
}

/// Only storage bring-up retries: a failure event raised in its phase
/// leaves the phase unchanged exactly for `StorageInit`, and halts the
/// device everywhere else.
pub proof fn lemma_only_storage_init_retries(p: LcPhase, e: LcEvent)
    requires
        raises_failure(p, e),
    ensures
        lc_next(p, e) == p <==> p == LcPhase::StorageInit,
        p != LcPhase::StorageInit ==> lc_next(p, e) == LcPhase::Halted,
{
}

/// A halted device stays halted: no event leaves the fatal state.
pub proof fn lemma_halt_is_terminal(e: LcEvent)
    ensures
        lc_next(LcPhase::Halted, e) == LcPhase::Halted,
{
}

} // verus!
