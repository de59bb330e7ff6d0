use corvid_app::{Capture, Headless, Tick};
use std::path::PathBuf;

#[test]
fn a_headless_run_counts_its_frames_and_writes_nothing_without_a_capture() {
    let mut headless = Headless::new(None);
    assert_eq!(headless.frames(), 0);
    assert_eq!(headless.present(Tick(3)), None);
    assert_eq!(headless.present(Tick(4)), None);
    assert_eq!(headless.frames(), 2);
    assert!(headless.capture().is_none());
}

#[test]
fn a_captured_headless_run_writes_each_frame_s_audio_named_for_its_tick() {
    let mut headless = Headless::new(Some(Capture::new(String::from("/runs/one"))));
    let path = headless.present(Tick(12)).expect("a capture takes the audio");
    assert_eq!(PathBuf::from(path), PathBuf::from("/runs/one").join("audio").join("12"));
    assert_eq!(headless.frames(), 1);
    assert_eq!(headless.capture(), Some(&Capture::new(String::from("/runs/one"))));
}

#[test]
fn a_headless_run_has_no_viewport() {
    assert_eq!(Headless::new(None).viewport(), None);
    assert_eq!(Headless::new(Some(Capture::new(String::from("/runs")))).viewport(), None);
}
