use corvid_app::{
    Arrival, Delivery, Error, Halt, Rolled, Tick, TickTraffic, after_answering, arrive, collect,
    halted, newest_head,
};

#[test]
fn an_unreadable_datagram_is_counted_and_never_stops_the_tick() {
    let mut traffic = TickTraffic::default();
    let mut head = Tick(7);
    assert_eq!(arrive(&mut traffic, &mut head, Arrival::Unreadable), Ok(()));
    assert_eq!(traffic.undecodable, 1);
    assert_eq!(traffic.heard, 0);
    assert_eq!(head, Tick(7));
}

#[test]
fn a_received_datagram_keeps_the_later_head_and_the_deeper_rollback() {
    let mut traffic = TickTraffic::default();
    let mut head = Tick(10);
    let arrivals = vec![
        Arrival::Decoded { head: Tick(14), received: Ok(Rolled { ticks: 2 }) },
        Arrival::Unreadable,
        Arrival::Decoded { head: Tick(12), received: Ok(Rolled { ticks: 5 }) },
        Arrival::Decoded { head: Tick(13), received: Ok(Rolled { ticks: 0 }) },
    ];
    assert_eq!(collect(&mut traffic, &mut head, arrivals), Ok(()));
    assert_eq!(head, Tick(14));
    assert_eq!(traffic.heard, 3);
    assert_eq!(traffic.undecodable, 1);
    assert_eq!(traffic.rolled, Rolled { ticks: 5 });
}

#[test]
fn only_the_peer_stops_a_tick_and_at_its_first_refusal() {
    let mut traffic = TickTraffic::default();
    let mut head = Tick(0);
    let arrivals = vec![
        Arrival::Decoded { head: Tick(3), received: Ok(Rolled { ticks: 1 }) },
        Arrival::Decoded { head: Tick(9), received: Err(Halt::Desync(String::from("tick 8"))) },
        Arrival::Decoded { head: Tick(20), received: Err(Halt::Other(String::from("later"))) },
        Arrival::Unreadable,
    ];
    assert_eq!(
        collect(&mut traffic, &mut head, arrivals),
        Err(Error::Diverged(String::from("tick 8"))),
    );
    assert_eq!(head, Tick(3));
    assert_eq!(traffic.heard, 1);
    assert_eq!(traffic.undecodable, 0);
}

#[test]
fn a_peer_that_cannot_carry_on_is_a_divergence_or_a_halt() {
    assert_eq!(halted(Halt::Desync(String::from("d"))), Error::Diverged(String::from("d")));
    assert_eq!(halted(Halt::Other(String::from("o"))), Error::Halted(String::from("o")));
}

#[test]
fn the_newest_head_is_the_maximum_of_the_old_one_and_every_head_heard() {
    assert_eq!(newest_head(Tick(5), &vec![]), Tick(5));
    assert_eq!(newest_head(Tick(5), &vec![Tick(2), Tick(9), Tick(7)]), Tick(9));
    assert_eq!(newest_head(Tick(50), &vec![Tick(2), Tick(9), Tick(7)]), Tick(50));
}

#[test]
fn this_machine_reopens_on_its_own_state_only_when_the_state_went() {
    assert_eq!(after_answering(Delivery::Sent), (true, Ok(())));
    assert_eq!(after_answering(Delivery::Unsent), (false, Ok(())));
    assert_eq!(after_answering(Delivery::Unencodable), (false, Ok(())));
}
