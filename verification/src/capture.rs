//! Capture loop bookkeeping: warm-up discard and stop debounce.
//!
//! The loop around the hardware buffer pops one frame at a time and asks
//! `CaptureState` what to do with it: the first `warmup_left` frames are
//! settling noise and are discarded without being counted or forwarded;
//! every later frame is forwarded to the container writer and counted.
//! The stop control is level-sensed: once it is observed asserted the
//! state enters a debounce phase, and the loop may exit only after the
//! control is actually observed released again.

use vstd::prelude::*;

use crate::container::{ContainerError, ContainerWriter};

verus! {

/// The hardware transfer unit: bytes the source's DMA engine moves at
/// once. The drain buffer holds two units, so one popped frame is never
/// longer than that.
pub const I2S_BYTES: usize = 4092;

/// Largest frame one pop can yield.
pub const FRAME_BYTES_MAX: usize = 2 * I2S_BYTES;

/// Where the loop stands with respect to the stop control.
#[derive(Debug, PartialEq, Eq, Structural, Clone, Copy)]
pub enum RunPhase {
    /// Stop not yet observed asserted; frames are processed.
    Running,
    /// Stop observed asserted; waiting for its sustained release.
    Debouncing,
    /// Release observed after assertion; the loop exits.
    Stopped,
}

/// What the loop must do with the frame it just popped.
#[derive(Debug, PartialEq, Eq, Structural, Clone, Copy)]
pub struct FrameAction {
    /// Hand the frame to the container writer.
    pub forward: bool,
    /// Warm-up just completed: assert the recording-active indication.
    pub activate_indicator: bool,
}

/// Capture loop state: remaining warm-up frames, counted bytes, and the
/// stop control's phase.
#[derive(Debug, PartialEq, Eq, Structural, Clone, Copy)]
pub struct CaptureState {
    /// Frames still to discard before recording counts.
    pub warmup_left: u32,
    /// Bytes accepted after warm-up.
    pub bytes_captured: u64,
    /// Stop-control phase.
    pub phase: RunPhase,
}

/// One frame through the state: a warm-up frame decrements the discard
/// budget, any other frame is counted.
pub open spec fn frame_step(s: CaptureState, len: nat) -> CaptureState {
    if s.warmup_left > 0 {
        CaptureState { warmup_left: (s.warmup_left - 1) as u32, ..s }
    } else {
        CaptureState { bytes_captured: (s.bytes_captured + len) as u64, ..s }
    }
}

/// One observation of the stop control through the state.
pub open spec fn stop_step(p: RunPhase, asserted: bool) -> RunPhase {
    match p {
        RunPhase::Running => if asserted {
            RunPhase::Debouncing
        } else {
            RunPhase::Running
        },
        RunPhase::Debouncing => if asserted {
            RunPhase::Debouncing
        } else {
            RunPhase::Stopped
        },
        RunPhase::Stopped => RunPhase::Stopped,
    }
}

/// The state after a whole sequence of popped frames.
pub open spec fn capture_run(s: CaptureState, frames: Seq<Seq<u8>>) -> CaptureState
    decreases frames.len(),
{
    if frames.len() == 0 {
        s
    } else {
        capture_run(frame_step(s, frames.first().len()), frames.drop_first())
    }
}

/// The frames a run forwards to the writer, in order.
pub open spec fn forwarded_frames(s: CaptureState, frames: Seq<Seq<u8>>) -> Seq<Seq<u8>>
    decreases frames.len(),
{
    if frames.len() == 0 {
        Seq::empty()
    } else if s.warmup_left > 0 {
        forwarded_frames(frame_step(s, frames.first().len()), frames.drop_first())
    } else {
        seq![frames.first()] + forwarded_frames(
            frame_step(s, frames.first().len()),
            frames.drop_first(),
        )
    }
}

/// The stop phase after a whole sequence of observed levels.
pub open spec fn stop_run(p: RunPhase, levels: Seq<bool>) -> RunPhase
    decreases levels.len(),
{
    if levels.len() == 0 {
        p
    } else {
        stop_run(stop_step(p, levels.first()), levels.drop_first())
    }
}

impl CaptureState {
    /// Fresh state with a warm-up budget of `warmup` frames.
    pub fn new(warmup: u32) -> (s: CaptureState)
        ensures
            s.warmup_left == warmup,
            s.bytes_captured == 0,
            s.phase == RunPhase::Running,
    {
        CaptureState { warmup_left: warmup, bytes_captured: 0, phase: RunPhase::Running }
    }

    /// Account for one popped frame of `len` bytes and say what to do with
    /// it. Warm-up frames are never forwarded; the indication is asserted
    /// exactly when the last warm-up frame goes by.
    pub fn on_frame(&mut self, len: usize) -> (act: FrameAction)
        requires
            old(self).phase == RunPhase::Running,
            len <= FRAME_BYTES_MAX,
            old(self).bytes_captured + len <= u64::MAX,
        ensures
            *final(self) == frame_step(*old(self), len as nat),
            act.forward == (old(self).warmup_left == 0),
            act.activate_indicator == (old(self).warmup_left == 1),
    {
        if self.warmup_left > 0 {
            self.warmup_left = self.warmup_left - 1;
            FrameAction { forward: false, activate_indicator: self.warmup_left == 0 }
        } else {
            self.bytes_captured = self.bytes_captured + (len as u64);
            FrameAction { forward: true, activate_indicator: false }
        }
    }

    /// Account for one level observation of the stop control.
    pub fn on_stop_level(&mut self, asserted: bool)
        ensures
            final(self).warmup_left == old(self).warmup_left,
            final(self).bytes_captured == old(self).bytes_captured,
            final(self).phase == stop_step(old(self).phase, asserted),
    {
        match self.phase {
            RunPhase::Running => {
                if asserted {
                    self.phase = RunPhase::Debouncing;
                }
            },
            RunPhase::Debouncing => {
                if !asserted {
                    self.phase = RunPhase::Stopped;
                }
            },
            RunPhase::Stopped => {},
        }
    }

    /// Whether the loop must exit.
    pub fn is_stopped(&self) -> (r: bool)
        ensures
            r == (self.phase == RunPhase::Stopped),
    {
        match self.phase {
            RunPhase::Stopped => true,
            _ => false,
        }
    }
}

/// Pop-and-process step of the capture loop: discard the frame during
/// warm-up, otherwise forward it to the container writer; the stop control
/// is checked elsewhere, only after a completed append. A writer failure
/// leaves both the state and the writer unchanged (the caller treats it as
/// fatal).
pub fn process_frame(state: &mut CaptureState, writer: &mut ContainerWriter, chunk: &[u8]) -> (r:
    Result<FrameAction, ContainerError>)
    requires
        old(state).phase == RunPhase::Running,
        chunk@.len() <= FRAME_BYTES_MAX,
        old(state).bytes_captured + chunk@.len() <= u64::MAX,
        old(writer).inv(),
    ensures
        final(writer).inv(),
        old(state).warmup_left > 0 ==> {
            &&& r is Ok
            &&& *final(writer) == *old(writer)
            &&& *final(state) == frame_step(*old(state), chunk@.len())
        },
        old(state).warmup_left == 0 && !old(writer).finalized && old(writer).data_bytes
            + chunk@.len() <= crate::container::MAX_DATA_BYTES ==> {
            &&& r is Ok
            &&& *final(state) == frame_step(*old(state), chunk@.len())
            &&& final(writer).data@ == old(writer).data@ + chunk@
            &&& final(writer).data_bytes == old(writer).data_bytes + chunk@.len()
            &&& final(writer).finalized == old(writer).finalized
            &&& final(writer).fmt == old(writer).fmt
        },
        old(state).warmup_left == 0 && (old(writer).finalized || old(writer).data_bytes
            + chunk@.len() > crate::container::MAX_DATA_BYTES) ==> {
            &&& r is Err
            &&& *final(writer) == *old(writer)
            &&& *final(state) == *old(state)
        },
        r matches Ok(act) ==> act.forward == (old(state).warmup_left == 0)
            && act.activate_indicator == (old(state).warmup_left == 1),
    {
    if state.warmup_left > 0 {
        let act = state.on_frame(chunk.len());
        Ok(act)
    } else {
        match writer.append(chunk) {
            Ok(_) => {
                let act = state.on_frame(chunk.len());
                Ok(act)
            },
            Err(e) => Err(e),
        }
    }
}

/// Warm-up law: a run forwards exactly the frames after the first
/// `warmup_left`, and counts exactly their bytes — the discarded frames
/// contribute neither to the byte total nor to the forwarded content.
pub proof fn lemma_warmup_discard(s: CaptureState, frames: Seq<Seq<u8>>)
    requires
        s.bytes_captured + frames.flatten().len() <= u64::MAX,
    ensures
        forwarded_frames(s, frames) == if frames.len() <= s.warmup_left {
            Seq::<Seq<u8>>::empty()
        } else {
            frames.skip(s.warmup_left as int)
        },
        capture_run(s, frames).bytes_captured == s.bytes_captured + forwarded_frames(
            s,
            frames,
        ).flatten().len(),
        capture_run(s, frames).phase == s.phase,
        capture_run(s, frames).warmup_left == if frames.len() <= s.warmup_left {
            s.warmup_left - frames.len()
        } else {
            0
        },
    decreases frames.len(),
{
    if frames.len() == 0 {
        assert(forwarded_frames(s, frames) =~~= Seq::<Seq<u8>>::empty());
    } else {
        let s1 = frame_step(s, frames.first().len());
        let rest = frames.drop_first();
        assert(frames.flatten() == frames.first() + rest.flatten());
        lemma_warmup_discard(s1, rest);
        if s.warmup_left > 0 {
            if frames.len() <= s.warmup_left {
                assert(rest.len() <= s1.warmup_left);
            } else {
                assert(frames.skip(s.warmup_left as int) =~~= rest.skip(s1.warmup_left as int));
            }
        } else {
            assert(forwarded_frames(s, frames) == seq![frames.first()] + forwarded_frames(
                s1,
                rest,
            ));
            assert(forwarded_frames(s1, rest) =~~= rest.skip(0));
            assert(rest.skip(0) =~~= rest);
            assert(frames.skip(0) =~~= frames);
            assert(forwarded_frames(s, frames) =~~= frames);
            assert(forwarded_frames(s, frames).flatten() == frames.first() + forwarded_frames(
                s1,
                rest,
            ).flatten()) by {
                assert(forwarded_frames(s, frames).first() == frames.first());
                assert(forwarded_frames(s, frames).drop_first() =~~= forwarded_frames(s1, rest));
            }
        }
    }
}

/// Debounce law: as long as every observation of the stop control sees it
/// asserted, the loop never reaches the exit phase — a release that is
/// never observed (for instance one shorter than a poll interval) cannot
/// end the capture.
pub proof fn lemma_no_exit_without_observed_release(p: RunPhase, levels: Seq<bool>)
    requires
        p != RunPhase::Stopped,
        forall|i: int| 0 <= i < levels.len() ==> levels[i],
    ensures
        stop_run(p, levels) != RunPhase::Stopped,
    decreases levels.len(),
{
    if levels.len() > 0 {
        lemma_no_exit_without_observed_release(stop_step(p, levels.first()), levels.drop_first());
    }
}

} // verus!
