use corvid_app::{PlayerId, Seating};

#[test]
fn a_player_watches_the_seat_it_plays() {
    let seated = Seating::Playing(PlayerId(2));
    assert_eq!(seated.watched(), PlayerId(2));
    assert_eq!(seated.playing(), Some(PlayerId(2)));
}

#[test]
fn a_spectator_watches_a_seat_it_does_not_play() {
    let seated = Seating::Watching(PlayerId(1));
    assert_eq!(seated.watched(), PlayerId(1));
    assert_eq!(seated.playing(), None);
}

#[test]
fn the_default_plays_the_first_seat() {
    assert_eq!(Seating::default(), Seating::Playing(PlayerId(0)));
}
