use corvid_app::{
    Answer, Argument, Arguments, Capture, CommandLine, ExitCode, Flow, Follow, Tick, after_tick,
    answer, before_tick, digest_line, exit_status, follow, looked, owed, reached_the_count,
    saved, settled,
};

#[test]
fn a_count_of_nought_runs_no_ticks() {
    assert_eq!(before_tick(Some(Tick(5)), Tick(5)), Flow::Stop(ExitCode(0)));
    assert_eq!(before_tick(Some(Tick(6)), Tick(5)), Flow::Go);
    assert_eq!(before_tick(None, Tick(5)), Flow::Go);
    assert!(!reached_the_count(None, Tick(u64::MAX)));
}

#[test]
fn a_quit_stops_the_loop_at_the_tick_that_asked() {
    assert_eq!(after_tick(Some(ExitCode(3)), Some(Tick(1)), Tick(1), true), Flow::Stop(ExitCode(3)));
    assert_eq!(after_tick(None, Some(Tick(1)), Tick(1), false), Flow::Stop(ExitCode(0)));
    assert_eq!(after_tick(None, None, Tick(1), true), Flow::Stop(ExitCode(0)));
    assert_eq!(after_tick(None, Some(Tick(2)), Tick(1), false), Flow::Go);
}

#[test]
fn a_paused_controller_owes_nothing() {
    assert_eq!(owed(true, 8), 8);
    assert_eq!(owed(false, 8), 0);
}

#[test]
fn the_display_follows_the_peer() {
    assert_eq!(follow(Tick(4), Tick(4), false), Follow::Stay);
    assert_eq!(follow(Tick(4), Tick(5), false), Follow::Shift);
    assert_eq!(follow(Tick(4), Tick(4), true), Follow::Reset);
    assert_eq!(follow(Tick(9), Tick(6), true), Follow::Reset);
    assert_eq!(follow(Tick(u64::MAX), Tick(0), false), Follow::Reset);
}

#[test]
fn a_save_or_a_read_the_machine_refused_does_not_end_the_run() {
    assert_eq!(saved(true), Answer::Done);
    assert_eq!(saved(false), Answer::Failed);
    assert_eq!(looked(Some(true)), Answer::Done);
    assert_eq!(looked(Some(false)), Answer::Empty);
    assert_eq!(looked(None), Answer::Failed);
}

#[test]
fn asking_for_the_usage_is_not_a_refusal() {
    assert_eq!(answer(Err(Argument::Help)), CommandLine::Usage);
    let refused = Argument::Missing { flag: "--bots" };
    assert_eq!(answer(Err(refused.clone())), CommandLine::Refused(refused));
    assert_eq!(answer(Ok(Arguments::default())), CommandLine::Play(Arguments::default()));
}

#[test]
fn the_digest_reported_is_a_settled_one() {
    assert_eq!(settled(Tick(100)), Tick(80));
    assert_eq!(settled(Tick(3)), Tick(0));
    assert_eq!(digest_line(Some(0xdead_beef)), "0x00000000deadbeef");
    assert_eq!(digest_line(Some(u64::MAX)), "0xffffffffffffffff");
    assert_eq!(digest_line(None), "unknown");
}

#[test]
fn a_quit_with_a_status_leaves_the_process_with_it() {
    assert_eq!(exit_status(ExitCode(0)), None);
    assert_eq!(exit_status(ExitCode(7)), Some(7));
    assert_eq!(exit_status(ExitCode(255)), Some(255));
}

#[test]
fn a_capture_is_one_directory() {
    let capture = Capture::new(String::from("out"));
    assert_eq!(capture.directories(), vec!["out", "out/frames", "out/audio"]);
    assert_eq!(capture.picture(Tick(12)), "out/frames/12.png");
    assert_eq!(capture.audio(Tick(0)), "out/audio/0");
    assert_eq!(capture.trace(), "out/trace");
    assert_eq!(capture.session(), "out/session");
}
