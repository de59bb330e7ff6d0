use corvid_app::{
    App, Arguments, ClockChoice, Error, Extent, Opens, PlayerId, Retention, SaveSlot, Seating,
    Shown, Tick, Ticks,
};

fn args(list: &[&str]) -> Arguments {
    Arguments::parse(list.iter().map(|s| s.to_string()).collect()).unwrap()
}

#[test]
fn a_new_app_plays_seat_nought_alone_and_headless() {
    let app = App::new();
    assert_eq!(app.seating, Seating::Playing(PlayerId(0)));
    assert_eq!(app.bots, 0);
    assert_eq!(app.shown(), Shown::Headless);
    assert_eq!(app.opens(), Opens::Fresh);
}

#[test]
fn a_spectator_told_a_seat_watches_that_seat() {
    let app = App::new().apply(args(&["--spectator", "--seat", "1"]));
    assert_eq!(app.seating, Seating::Watching(PlayerId(1)));
}

#[test]
fn seat_nought_on_a_command_line_leaves_a_chosen_seat_alone() {
    let app = App::new().seat(PlayerId(3)).apply(args(&["--seat", "0"]));
    assert_eq!(app.seating, Seating::Playing(PlayerId(3)));
}

#[test]
fn a_flag_beats_a_builder_call_made_after_it() {
    let app = App::new()
        .arguments(args(&["--ticks", "5", "--state", "dir", "--headless"]))
        .window()
        .for_ticks(Ticks(99))
        .settled();
    assert_eq!(app.ticks, Some(Ticks(5)));
    assert_eq!(app.state.as_deref(), Some("dir"));
    assert_eq!(app.shown(), Shown::Headless);
    assert_eq!(app.arguments, None);
}

#[test]
fn each_opening_lands_where_the_run_reads_it() {
    assert_eq!(App::new().apply(args(&["--load", "4"])).opens(), Opens::Slot(SaveSlot(4)));
    assert_eq!(
        App::new().apply(args(&["--demo", "a/session"])).opens(),
        Opens::Recording(String::from("a/session")),
    );
    assert_eq!(
        App::new().apply(args(&["--level", "\"x\""])).level.as_deref(),
        Some("\"x\""),
    );
    assert_eq!(
        App::new().replay(String::from("r")).load(SaveSlot(1)).opens(),
        Opens::Slot(SaveSlot(1)),
    );
}

#[test]
fn a_window_beats_an_adapter_beats_nothing() {
    let size = Extent { width: 64, height: 48 };
    assert_eq!(App::new().offscreen(size).shown(), Shown::Offscreen(size));
    assert_eq!(App::new().offscreen(size).window().shown(), Shown::Windowed);
    assert_eq!(App::new().window().headless().shown(), Shown::Headless);
}

#[test]
fn a_linked_run_keeps_real_time() {
    assert_eq!(App::chosen_clock(true, true), ClockChoice::Given);
    assert_eq!(App::chosen_clock(false, true), ClockChoice::Wall);
    assert_eq!(App::chosen_clock(false, false), ClockChoice::Stepping);
}

#[test]
fn bots_and_peers_together_are_refused() {
    let app = App::new().bots(2);
    assert_eq!(app.refuse_bots_and_peers(true), Err(Error::BotsAndPeers { bots: 2 }));
    assert_eq!(app.refuse_bots_and_peers(false), Ok(()));
    assert_eq!(App::new().refuse_bots_and_peers(true), Ok(()));
}

#[test]
fn bots_take_the_seats_nobody_plays_in_roster_order() {
    let prepared = App::new().seat(PlayerId(1)).bots(2).prepare(4, Tick(0)).unwrap();
    assert_eq!(prepared.bots, vec![PlayerId(0), PlayerId(2)]);
    let all = App::new().seat(PlayerId(1)).bots(9).prepare(4, Tick(0)).unwrap();
    assert_eq!(all.bots, vec![PlayerId(0), PlayerId(2), PlayerId(3)]);
    let watching = App::new().spectating().bots(9).prepare(2, Tick(0)).unwrap();
    assert_eq!(watching.bots, vec![PlayerId(0), PlayerId(1)]);
}

#[test]
fn a_roster_without_the_watched_seat_is_refused() {
    assert_eq!(App::new().prepare(0, Tick(0)), Err(Error::NoSeats));
    assert_eq!(
        App::new().seat(PlayerId(2)).prepare(2, Tick(0)),
        Err(Error::Seat { seat: PlayerId(2), seats: 2 }),
    );
    assert_eq!(
        App::new().seat(PlayerId(2)).prepare(2, Tick(0)).unwrap_err().message(),
        "this client watches seat 2 and the roster has 2, so there would be nobody to look \
         through, and nowhere to record what it did if it played",
    );
}

#[test]
fn a_count_of_ticks_is_counted_from_where_the_run_opened() {
    let prepared = App::new().for_ticks(Ticks(10)).prepare(1, Tick(900)).unwrap();
    assert_eq!(prepared.deadline, Some(Tick(910)));
    assert_eq!(App::new().prepare(1, Tick(900)).unwrap().deadline, None);
}

#[test]
fn a_run_written_down_keeps_everything_unless_told() {
    assert_eq!(App::new().prepare(1, Tick(0)).unwrap().retention, Retention::Recent { ticks: 256 });
    assert_eq!(
        App::new().capture(String::from("c")).prepare(1, Tick(0)).unwrap().retention,
        Retention::Everything,
    );
    assert_eq!(
        App::new().record(String::from("r")).retain(Retention::Recent { ticks: 4 }).prepare(1, Tick(0)).unwrap().retention,
        Retention::Recent { ticks: 4 },
    );
}

#[test]
fn every_refusal_is_a_sentence() {
    assert_eq!(
        Error::Empty { slot: SaveSlot(3) }.message(),
        "nothing has been written to save slot 3, so there is nothing there to open",
    );
    assert_eq!(
        Error::Wrote { path: String::from("/x"), why: String::from("denied") }.message(),
        "/x could not be written: denied",
    );
    assert_eq!(
        Error::Socket { what: "bind", address: String::from("0.0.0.0:1"), why: String::from("in use") }.message(),
        "this run could not bind 0.0.0.0:1: in use",
    );
    assert_eq!(
        Error::BotsAndPeers { bots: 3 }.message(),
        "this run has 3 bots and a transport, and a linked run never asks the bot -- so the \
         seats asked for would have been played by nobody",
    );
}

#[test]
fn a_sandbox_is_a_headless_run_kept_in_its_own_directory() {
    let app = App::sandbox(String::from("/tmp/corvid-sandbox-counter-7-0"));
    assert_eq!(app.state, Some(String::from("/tmp/corvid-sandbox-counter-7-0")));
    assert_eq!(app.shown(), Shown::Headless);
    assert_eq!(App { state: None, ..app }, App::new());
}

#[test]
fn two_sandboxes_never_share_a_directory() {
    let first = corvid_app::sandbox_directory("/tmp", "counter", 4021, 0);
    let second = corvid_app::sandbox_directory("/tmp", "counter", 4021, 1);
    assert_eq!(first, String::from("/tmp/corvid-sandbox-counter-4021-0"));
    assert_eq!(second, String::from("/tmp/corvid-sandbox-counter-4021-1"));
    assert_ne!(first, second);
}

#[test]
fn a_flag_beats_a_builder_call_made_before_it() {
    let settled = App::new()
        .for_ticks(Ticks(99))
        .bots(1)
        .state(String::from("builder/state"))
        .arguments(args(&["--ticks", "5", "--bots", "2", "--state", "flag/state"]))
        .settled();
    assert_eq!(settled.ticks, Some(Ticks(5)));
    assert_eq!(settled.bots, 2);
    assert_eq!(settled.state, Some(String::from("flag/state")));
}

#[test]
fn a_run_refuses_in_order_and_makes_directories_only_when_it_will_happen() {
    let app = App::new().bots(2).capture(String::from("/runs/one"));
    assert_eq!(
        app.start(true, false, false, 0, Tick(0)),
        Err(Error::BotsAndPeers { bots: 2 }),
    );
    assert_eq!(app.start(false, false, false, 0, Tick(0)), Err(Error::Unopened));
    let loading = app.clone().load(SaveSlot(4));
    assert_eq!(loading.start(false, true, false, 3, Tick(0)), Err(Error::Empty { slot: SaveSlot(4) }));
    assert_eq!(app.start(false, true, false, 0, Tick(0)), Err(Error::NoSeats));
    assert_eq!(
        App::new().seat(PlayerId(5)).start(false, true, true, 3, Tick(0)),
        Err(Error::Seat { seat: PlayerId(5), seats: 3 }),
    );
    let started = app.start(false, true, false, 3, Tick(0)).expect("a run that will happen");
    assert_eq!(started.prepared.bots, vec![PlayerId(1), PlayerId(2)]);
    assert_eq!(
        started.directories,
        vec![
            String::from("/runs/one"),
            String::from("/runs/one/frames"),
            String::from("/runs/one/audio"),
        ],
    );
    assert!(App::new().start(false, true, false, 1, Tick(0)).expect("alone").directories.is_empty());
}
