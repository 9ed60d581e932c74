use diane::capture::{process_frame, CaptureState, RunPhase};
use diane::container::ContainerWriter;
use diane::sd::hardware_format;

/// With a warm-up count of 2, the first two popped frames are neither
/// counted nor forwarded; the indication is asserted as the last warm-up
/// frame goes by.
#[test]
fn warmup_frames_discarded() {
    let mut s = CaptureState::new(2);
    let a1 = s.on_frame(10);
    assert!(!a1.forward);
    assert!(!a1.activate_indicator);
    let a2 = s.on_frame(20);
    assert!(!a2.forward);
    assert!(a2.activate_indicator);
    assert_eq!(s.bytes_captured, 0);
    let a3 = s.on_frame(30);
    assert!(a3.forward);
    assert!(!a3.activate_indicator);
    assert_eq!(s.bytes_captured, 30);
}

#[test]
fn no_warmup_counts_everything() {
    let mut s = CaptureState::new(0);
    let a = s.on_frame(100);
    assert!(a.forward);
    assert!(!a.activate_indicator);
    s.on_frame(100);
    s.on_frame(100);
    assert_eq!(s.bytes_captured, 300);
}

/// Warm-up frames never reach the container writer.
#[test]
fn warmup_frames_skip_writer() {
    let mut s = CaptureState::new(1);
    let (mut w, _header) = ContainerWriter::open(hardware_format());
    process_frame(&mut s, &mut w, &[9u8; 50]).unwrap();
    assert_eq!(w.data_bytes, 0);
    process_frame(&mut s, &mut w, &[9u8; 50]).unwrap();
    assert_eq!(w.data_bytes, 50);
    assert_eq!(s.bytes_captured, 50);
}

/// The stop control must be seen asserted and then seen released before
/// the loop exits.
#[test]
fn stop_needs_assert_then_release() {
    let mut s = CaptureState::new(0);
    assert_eq!(s.phase, RunPhase::Running);
    s.on_stop_level(false);
    assert_eq!(s.phase, RunPhase::Running);
    s.on_stop_level(true);
    assert_eq!(s.phase, RunPhase::Debouncing);
    s.on_stop_level(false);
    assert_eq!(s.phase, RunPhase::Stopped);
    assert!(s.is_stopped());
}

/// A release and re-assert inside one poll interval is never observed:
/// every poll still sees the control asserted, so the loop must not exit.
#[test]
fn unobserved_release_does_not_exit() {
    let mut s = CaptureState::new(0);
    s.on_stop_level(true);
    // The control bounced between these polls, but each observation still
    // saw it asserted.
    s.on_stop_level(true);
    s.on_stop_level(true);
    assert_eq!(s.phase, RunPhase::Debouncing);
    assert!(!s.is_stopped());
    // Only an actual observed release ends the capture.
    s.on_stop_level(false);
    assert!(s.is_stopped());
}

#[test]
fn stopped_is_terminal() {
    let mut s = CaptureState::new(0);
    s.on_stop_level(true);
    s.on_stop_level(false);
    s.on_stop_level(true);
    assert_eq!(s.phase, RunPhase::Stopped);
}
