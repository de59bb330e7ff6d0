use corvid_app::{Forget, Horizon, Retention, Tick};

#[test]
fn the_default_is_the_recent_past() {
    assert_eq!(Retention::default(), Retention::Recent { ticks: 256 });
    assert_eq!(Retention::recent(), Retention::default());
}

#[test]
fn a_bounded_run_sets_a_state_aside_every_window_and_forgets_one_behind() {
    let mut horizon = Horizon::new(Retention::Recent { ticks: 3 }, Tick(10));
    let mut seen = Vec::new();
    for at in 11..=20 {
        seen.push(horizon.forget(Tick(at)));
    }
    assert_eq!(
        seen,
        vec![
            Forget::Nothing,
            Forget::Nothing,
            Forget::SetAside,
            Forget::Nothing,
            Forget::Nothing,
            Forget::Before(Tick(13)),
            Forget::Nothing,
            Forget::Nothing,
            Forget::Before(Tick(16)),
            Forget::Nothing,
        ],
    );
}

#[test]
fn a_window_of_nought_keeps_the_row_just_written() {
    let mut horizon = Horizon::new(Retention::Recent { ticks: 0 }, Tick(0));
    assert_eq!(horizon.forget(Tick(1)), Forget::SetAside);
    assert_eq!(horizon.forget(Tick(2)), Forget::Before(Tick(1)));
    assert_eq!(horizon.forget(Tick(3)), Forget::Before(Tick(2)));
}

#[test]
fn keeping_everything_forgets_nothing() {
    let mut horizon = Horizon::new(Retention::Everything, Tick(0));
    for at in 1..100 {
        assert_eq!(horizon.forget(Tick(at)), Forget::Nothing);
    }
}
