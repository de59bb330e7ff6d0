use corvid_app::{
    Advanced, Argument, Departures, PeerId, PlayerId, Rolled, Tick, TickTraffic, Traffic,
    departure_lead, is_stuck, pair_with, peer_of, seat_of,
};

#[test]
fn net_a_seat_two_command_lines_cannot_arrange_is_refused_before_a_port_is_bound() {
    let why = pair_with(PlayerId(2)).expect_err("seat two is not one of a pair");
    assert_eq!(why, Argument::Pairing { seat: PlayerId(2) });
    assert!(why.message().contains("seat 2"), "{}", why.message());
}

#[test]
fn mod_a_seat_two_command_lines_cannot_arrange_is_refused_before_a_port_is_bound() {
    let why = pair_with(PlayerId(2)).expect_err("seat two is not one of a pair");
    assert_eq!(why, Argument::Pairing { seat: PlayerId(2) });
    assert!(why.message().contains("seat 2"), "{}", why.message());
}

#[test]
fn the_two_seats_a_command_line_can_arrange_reach_each_other() {
    assert_eq!(pair_with(PlayerId(0)), Ok(PlayerId(1)));
    assert_eq!(pair_with(PlayerId(1)), Ok(PlayerId(0)));
}

#[test]
fn a_peer_is_counted_from_one_and_a_seat_from_nought() {
    assert_eq!(seat_of(PeerId(1)), PlayerId(0));
    assert_eq!(seat_of(PeerId(2)), PlayerId(1));
    assert_eq!(seat_of(PeerId(0)), PlayerId(0));
    assert_eq!(seat_of(peer_of(PlayerId(0))), PlayerId(0));
    assert_eq!(seat_of(peer_of(PlayerId(41))), PlayerId(41));
    assert_eq!(peer_of(PlayerId(u16::MAX)), PeerId(u16::MAX));
}

#[test]
fn a_run_is_counted_rather_than_sampled() {
    let mut totals = Traffic::default();
    totals.fold(TickTraffic { heard: 3, sent: 2, ..TickTraffic::default() });
    totals.fold(TickTraffic {
        rolled: Rolled { ticks: 4 },
        advanced: Advanced { stalled: true },
        undecodable: 1,
        ..TickTraffic::default()
    });
    totals.fold(TickTraffic { rolled: Rolled { ticks: 2 }, rescued: true, ..TickTraffic::default() });
    assert_eq!(
        totals,
        Traffic {
            heard: 3,
            sent: 2,
            undecodable: 1,
            rollbacks: 2,
            resimulated: 6,
            deepest: 4,
            rescues: 1,
            stalls: 1,
        },
    );
}

#[test]
fn the_totals_stand_still_at_the_top() {
    let mut totals = Traffic { heard: u64::MAX - 1, ..Traffic::default() };
    totals.fold(TickTraffic { heard: 9, ..TickTraffic::default() });
    assert_eq!(totals.heard, u64::MAX);
}

#[test]
fn nothing_is_agreed_until_everybody_still_here_has_spoken() {
    let mut table = Departures::new(3);
    // Seat 2 left; seats 0 and 1 are still here and both have to say when.
    assert_eq!(table.propose(PlayerId(2), PlayerId(0), Tick(40)), None);
    assert!(table.is_live(PlayerId(2)));
    assert_eq!(table.propose(PlayerId(2), PlayerId(1), Tick(35)), Some(Tick(35)));
    assert!(!table.is_live(PlayerId(2)));
    assert_eq!(table.agreed(PlayerId(2)), Some(Tick(35)));
    // Applied once.
    assert_eq!(table.propose(PlayerId(2), PlayerId(1), Tick(1)), None);
    assert_eq!(table.agreed(PlayerId(2)), Some(Tick(35)));
}

#[test]
fn hearing_a_machine_twice_cannot_move_the_answer_later() {
    let mut table = Departures::new(3);
    assert_eq!(table.propose(PlayerId(2), PlayerId(0), Tick(30)), None);
    assert_eq!(table.propose(PlayerId(2), PlayerId(0), Tick(90)), None);
    assert_eq!(table.propose(PlayerId(2), PlayerId(1), Tick(50)), Some(Tick(30)));
}

#[test]
fn a_seat_that_has_left_is_not_waited_for() {
    let mut table = Departures::new(3);
    table.adopt(PlayerId(1), Tick(10));
    assert_eq!(table.propose(PlayerId(2), PlayerId(0), Tick(20)), Some(Tick(20)));
    assert_eq!(table.all(), vec![(PlayerId(1), Tick(10)), (PlayerId(2), Tick(20))]);
}

#[test]
fn an_adopted_departure_keeps_the_earliest() {
    let mut table = Departures::new(2);
    table.adopt(PlayerId(1), Tick(10));
    table.adopt(PlayerId(1), Tick(20));
    assert_eq!(table.agreed(PlayerId(1)), Some(Tick(10)));
    table.adopt(PlayerId(1), Tick(5));
    assert_eq!(table.agreed(PlayerId(1)), Some(Tick(5)));
}

#[test]
fn the_lowest_seat_still_here_answers() {
    let mut table = Departures::new(3);
    assert_eq!(table.authority(3, PlayerId(2)), PlayerId(0));
    table.adopt(PlayerId(0), Tick(1));
    assert_eq!(table.authority(3, PlayerId(2)), PlayerId(1));
    table.adopt(PlayerId(1), Tick(1));
    table.adopt(PlayerId(2), Tick(1));
    assert_eq!(table.authority(3, PlayerId(2)), PlayerId(2));
}

#[test]
fn a_machine_more_than_a_window_behind_is_stuck() {
    assert!(!is_stuck(Tick(0), Tick(0), 8));
    assert!(!is_stuck(Tick(18), Tick(10), 8));
    assert!(is_stuck(Tick(19), Tick(10), 8));
    assert!(!is_stuck(Tick(u64::MAX), Tick(u64::MAX - 3), 8));
    assert_eq!(departure_lead(2, 8), 11);
}

#[test]
fn a_machine_on_its_own_is_never_stuck() {
    for agreed in [0u64, 1, 500, u64::MAX] {
        for window in [0u64, 8, u64::MAX] {
            assert!(!is_stuck(Tick(0), Tick(agreed), window));
        }
    }
}
