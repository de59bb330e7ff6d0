use corvid_app::{Agreement, Control, Departures, PeerId, PlayerId, Reply, Rolled, Said, Tick, TickTraffic};

#[test]
fn a_machine_alone_with_the_one_it_lost_agrees_with_itself_a_lead_ahead() {
    let mut agreement = Agreement::new(2);
    let said = agreement.noticed(PeerId(2), PlayerId(0), Tick(10), 5);
    assert_eq!(said, Said { seat: PlayerId(1), at: Tick(15), applied: Some(Tick(15)) });
    assert_eq!(agreement.departures().agreed(PlayerId(1)), Some(Tick(15)));
    assert!(!agreement.departures().is_live(PlayerId(1)));
}

#[test]
fn nothing_is_applied_until_every_live_seat_has_spoken_and_then_the_earliest_is() {
    let mut agreement = Agreement::new(3);
    let said = agreement.noticed(PeerId(3), PlayerId(0), Tick(10), 5);
    assert_eq!(said, Said { seat: PlayerId(2), at: Tick(15), applied: None });
    let reply = agreement.heard(
        Control::Departed { seat: 2, from: 1, at: Tick(12) },
        PlayerId(0),
        Tick(11),
        5,
    );
    assert_eq!(reply, Reply::Folded { said: None, applied: Some(Tick(12)) });
    assert_eq!(agreement.departures().agreed(PlayerId(2)), Some(Tick(12)));
}

#[test]
fn a_machine_that_hears_of_a_departure_first_says_what_it_thinks_too() {
    let mut agreement = Agreement::new(3);
    let reply = agreement.heard(
        Control::Departed { seat: 2, from: 1, at: Tick(20) },
        PlayerId(0),
        Tick(10),
        5,
    );
    // Its own opinion is never earlier than the one it heard.
    assert_eq!(reply, Reply::Folded { said: Some(Tick(20)), applied: Some(Tick(20)) });
    assert_eq!(agreement.told(), vec![(PlayerId(2), Tick(20))]);
}

#[test]
fn a_machine_that_hears_of_a_departure_first_proposes_no_earlier_than_its_lead() {
    let mut agreement = Agreement::new(4);
    let reply = agreement.heard(
        Control::Departed { seat: 3, from: 1, at: Tick(12) },
        PlayerId(0),
        Tick(10),
        5,
    );
    assert_eq!(reply, Reply::Folded { said: Some(Tick(15)), applied: None });
    let reply = agreement.heard(
        Control::Departed { seat: 3, from: 2, at: Tick(40) },
        PlayerId(0),
        Tick(11),
        5,
    );
    assert_eq!(reply, Reply::Folded { said: None, applied: Some(Tick(12)) });
}

#[test]
fn the_same_opinions_in_another_order_agree_on_the_same_tick() {
    let opinions = [(1u16, Tick(30)), (2u16, Tick(22)), (3u16, Tick(27))];
    let mut first = Agreement::new(5);
    let mut second = Agreement::new(5);
    let mut applied_first = None;
    let mut applied_second = None;
    for (from, at) in opinions {
        if let Reply::Folded { applied: Some(t), .. } =
            first.heard(Control::Departed { seat: 4, from, at }, PlayerId(0), Tick(0), 0)
        {
            applied_first = Some(t);
        }
    }
    for (from, at) in opinions.iter().rev() {
        if let Reply::Folded { applied: Some(t), .. } =
            second.heard(Control::Departed { seat: 4, from: *from, at: *at }, PlayerId(0), Tick(0), 0)
        {
            applied_second = Some(t);
        }
    }
    assert_eq!(applied_first, applied_second);
    assert_eq!(applied_first, Some(Tick(22)));
}

#[test]
fn an_agreed_departure_is_applied_once() {
    let mut agreement = Agreement::new(2);
    let said = agreement.noticed(PeerId(2), PlayerId(0), Tick(10), 5);
    assert_eq!(said.applied, Some(Tick(15)));
    let reply = agreement.heard(
        Control::Departed { seat: 1, from: 0, at: Tick(3) },
        PlayerId(0),
        Tick(10),
        5,
    );
    assert_eq!(reply, Reply::Folded { said: None, applied: None });
    assert_eq!(agreement.departures().agreed(PlayerId(1)), Some(Tick(15)));
}

#[test]
fn noticing_the_same_loss_twice_says_the_same_tick() {
    let mut agreement = Agreement::new(3);
    let said = agreement.noticed(PeerId(3), PlayerId(0), Tick(10), 5);
    assert_eq!(said.at, Tick(15));
    let again = agreement.noticed(PeerId(3), PlayerId(0), Tick(90), 5);
    assert_eq!(again, Said { seat: PlayerId(2), at: Tick(15), applied: None });
}

#[test]
fn a_stuck_machine_is_answered_rather_than_folded_in() {
    let mut agreement = Agreement::new(3);
    let reply = agreement.heard(Control::Stuck { seat: 2, agreed: Tick(7) }, PlayerId(0), Tick(10), 5);
    assert_eq!(reply, Reply::Answer { seat: PlayerId(2), agreed: Tick(7) });
    assert!(agreement.told().is_empty());
}

#[test]
fn a_late_arrival_is_told_everything_this_machine_said_in_seat_order() {
    let mut agreement = Agreement::new(6);
    agreement.noticed(PeerId(5), PlayerId(0), Tick(10), 5);
    agreement.noticed(PeerId(3), PlayerId(0), Tick(12), 5);
    assert_eq!(agreement.told(), vec![(PlayerId(2), Tick(17)), (PlayerId(4), Tick(15))]);
}

#[test]
fn only_the_lowest_live_seat_answers_a_stuck_machine() {
    let mut agreement = Agreement::new(3);
    assert!(agreement.answers(3, PlayerId(0)));
    assert!(!agreement.answers(3, PlayerId(1)));
    agreement.rescued(&vec![(PlayerId(0), Tick(4))]);
    assert!(agreement.answers(3, PlayerId(1)));
    assert!(!agreement.answers(3, PlayerId(2)));
}

#[test]
fn only_the_authority_s_newest_state_is_adopted() {
    let agreement = Agreement::new(3);
    let offers = vec![
        (PeerId(2), Tick(90)),
        (PeerId(1), Tick(40)),
        (PeerId(1), Tick(50)),
        (PeerId(1), Tick(50)),
        (PeerId(3), Tick(99)),
    ];
    assert_eq!(agreement.solicited(3, PlayerId(2), &offers), Some(3));
    assert_eq!(agreement.solicited(3, PlayerId(2), &vec![(PeerId(2), Tick(90))]), None);
    assert_eq!(agreement.solicited(3, PlayerId(2), &Vec::new()), None);
}

#[test]
fn a_rescue_brings_the_departures_agreed_elsewhere() {
    let mut agreement = Agreement::new(4);
    agreement.noticed(PeerId(4), PlayerId(0), Tick(10), 5);
    agreement.rescued(&vec![(PlayerId(1), Tick(8)), (PlayerId(3), Tick(9))]);
    assert_eq!(agreement.departures().agreed(PlayerId(1)), Some(Tick(8)));
    assert_eq!(agreement.departures().agreed(PlayerId(3)), Some(Tick(9)));
    // What this machine said about seat three is now the agreed tick.
    assert_eq!(agreement.told(), vec![(PlayerId(1), Tick(8)), (PlayerId(3), Tick(9))]);
    // A departure already agreed here stays as it was.
    agreement.rescued(&vec![(PlayerId(1), Tick(2))]);
    assert_eq!(agreement.departures().agreed(PlayerId(1)), Some(Tick(8)));
}

#[test]
fn a_tick_s_traffic_keeps_its_deepest_rollback_and_counts_what_it_could_not_read() {
    let mut traffic = TickTraffic::default();
    traffic.received(Rolled { ticks: 3 });
    traffic.received(Rolled { ticks: 1 });
    traffic.unreadable();
    traffic.deepen(Rolled { ticks: 2 });
    assert_eq!(traffic.heard, 2);
    assert_eq!(traffic.undecodable, 1);
    assert_eq!(traffic.rolled, Rolled { ticks: 3 });
    traffic.deepen(Rolled { ticks: 7 });
    assert_eq!(traffic.rolled, Rolled { ticks: 7 });
    let mut full = TickTraffic { heard: u16::MAX, undecodable: u16::MAX, ..TickTraffic::default() };
    full.received(Rolled::default());
    full.unreadable();
    assert_eq!(full.heard, u16::MAX);
    assert_eq!(full.undecodable, u16::MAX);
}

#[test]
fn a_tick_s_traffic_counts_what_went_out_and_to_how_many() {
    let mut traffic = TickTraffic::default();
    traffic.reaching(3);
    traffic.sent_one();
    traffic.sent_one();
    assert_eq!(traffic.peers, 3);
    assert_eq!(traffic.sent, 2);
    traffic.reaching(70_000);
    assert_eq!(traffic.peers, u16::MAX);
}

#[test]
fn a_repeated_opinion_in_any_order_agrees_on_the_earliest() {
    let opinions = [(0u16, Tick(30)), (1u16, Tick(22)), (2u16, Tick(27)), (3u16, Tick(25))];
    let agree = |order: &[(u16, Tick)]| {
        let mut departures = Departures::new(5);
        let mut applied = Vec::new();
        for (from, at) in order {
            if let Some(t) = departures.propose(PlayerId(4), PlayerId(*from), *at) {
                applied.push(t);
            }
        }
        applied
    };
    let forward = agree(&opinions);
    let backward: Vec<(u16, Tick)> = opinions.iter().rev().copied().collect();
    let repeated = vec![opinions[1], opinions[3], opinions[1], opinions[0], opinions[3], opinions[2], opinions[1]];
    assert_eq!(forward, vec![Tick(22)]);
    assert_eq!(agree(&backward), vec![Tick(22)]);
    assert_eq!(agree(&repeated), vec![Tick(22)]);
}
