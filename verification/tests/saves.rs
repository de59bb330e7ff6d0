use corvid_app::{NotASave, SaveSlot, Saves, check_replay, data_home, resolve, root};
use std::path::{Path, PathBuf};

/// A game's name, for the joins below.
const NAME: &str = "counter";

#[test]
fn a_named_directory_is_the_root_whatever_the_environment_says() {
    let named = String::from("scratch/here");
    assert_eq!(
        resolve(Some(String::from("/data")), Some(named.clone()), NAME),
        named,
    );
    assert_eq!(resolve(None, Some(named.clone()), NAME), named);
}

#[test]
fn the_default_root_is_the_data_home_and_the_games_name() {
    assert_eq!(
        PathBuf::from(resolve(Some(String::from("/data")), None, NAME)),
        Path::new("/data").join(NAME),
    );
}

#[test]
fn a_machine_that_names_no_home_writes_beside_itself() {
    assert_eq!(PathBuf::from(resolve(None, None, NAME)), PathBuf::from(NAME));
}

#[test]
fn the_slots_are_a_leaf_of_the_root() {
    let root = Path::new("/data/counter");
    assert_eq!(
        PathBuf::from(Saves::under("/data/counter").path(SaveSlot(2))),
        root.join("saves").join("2.corvid"),
    );
}

#[test]
fn an_absolute_xdg_data_home_wins() {
    assert_eq!(
        data_home(Some(String::from("/xdg")), Some(String::from("/home/me"))),
        Some(String::from("/xdg")),
    );
}

#[test]
fn a_relative_xdg_data_home_is_ignored_for_home() {
    assert_eq!(
        data_home(Some(String::from("relative")), Some(String::from("/home/me"))),
        Some(String::from("/home/me/.local/share")),
    );
    assert_eq!(
        data_home(Some(String::new()), Some(String::from("/home/me/"))),
        Some(String::from("/home/me/.local/share")),
    );
}

#[test]
fn a_machine_with_no_absolute_home_has_no_data_home() {
    assert_eq!(data_home(None, None), None);
    assert_eq!(data_home(None, Some(String::from("home"))), None);
}

#[test]
fn the_root_is_the_game_under_the_data_home_unless_one_is_named() {
    assert_eq!(
        root(None, Some(String::from("/home/me")), None, NAME),
        "/home/me/.local/share/counter",
    );
    assert_eq!(
        root(None, Some(String::from("/home/me")), Some(String::from("here")), NAME),
        "here",
    );
    assert_eq!(root(None, None, None, NAME), NAME);
}

#[test]
fn a_slot_is_written_beside_itself_first() {
    let saves = Saves::under("/data/counter");
    assert_eq!(saves.directory(), "/data/counter/saves");
    assert_eq!(saves.pending(SaveSlot(17)), "/data/counter/saves/17.corvid.new");
    assert_eq!(saves.path(SaveSlot(0)), "/data/counter/saves/0.corvid");
    assert_eq!(saves.path(SaveSlot(255)), "/data/counter/saves/255.corvid");
    assert_ne!(saves.path(SaveSlot(3)), saves.pending(SaveSlot(3)));
}

#[test]
fn a_root_ending_in_a_separator_gets_no_second_one() {
    assert_eq!(Saves::under("/data/").directory(), "/data/saves");
}

#[test]
fn a_replay_that_arrives_elsewhere_is_refused() {
    assert_eq!(check_replay(7, 7), Ok(()));
    assert_eq!(
        check_replay(7, 8),
        Err(NotASave::Diverged { recorded: 7, replayed: 8 }),
    );
}

#[test]
fn each_refusal_says_what_was_wrong() {
    assert_eq!(
        NotASave::Bytes(String::from("truncated")).message(),
        "these are not the bytes of a save: truncated",
    );
    assert_eq!(NotASave::Session(String::from("old schema")).message(), "old schema");
    assert_eq!(
        NotASave::Unreachable(String::from("tick 9")).message(),
        "the session in this save does not reach its own last tick: tick 9",
    );
    assert_eq!(
        NotASave::Diverged { recorded: 0xab, replayed: 0x1_0000_0000 }.message(),
        "this save records the state at its last tick as 0x00000000000000ab and replaying \
         its own log arrives at 0x0000000100000000: the build that wrote it describes its \
         types exactly as this one does and computes something else out of them",
    );
}

#[test]
fn the_environment_the_real_resolution_reads_is_the_data_home() {
    // The environment is handed in rather than read, so what is asserted is
    // that `root` is `resolve` over `data_home` for every shape of environment
    // a machine can present: an absolute XDG_DATA_HOME, a relative one beside
    // a home, only a home, a relative home, and nothing at all.
    let environments: [(Option<&str>, Option<&str>); 6] = [
        (Some("/xdg/data"), Some("/home/me")),
        (Some("relative/data"), Some("/home/me")),
        (None, Some("/home/me")),
        (None, Some("home/me")),
        (Some(""), None),
        (None, None),
    ];
    for (xdg, home) in environments {
        let xdg = xdg.map(String::from);
        let home = home.map(String::from);
        assert_eq!(
            root(xdg.clone(), home.clone(), None, NAME),
            resolve(data_home(xdg.clone(), home.clone()), None, NAME),
        );
        // And the answer is a directory named for the game, absolute wherever
        // there is a home to be absolute under.
        let resolved = PathBuf::from(root(xdg.clone(), home.clone(), None, NAME));
        assert!(resolved.ends_with(NAME), "{}", resolved.display());
        assert_eq!(
            resolved.is_absolute(),
            data_home(xdg, home).is_some(),
            "{}",
            resolved.display(),
        );
    }
}

#[test]
fn two_slots_are_two_files() {
    let saves = Saves::under("/data/counter");
    for (a, b) in [(1u8, 2u8), (1, 10), (1, 11), (0, 100), (25, 52)] {
        assert_ne!(saves.path(SaveSlot(a)), saves.path(SaveSlot(b)));
    }
}

#[test]
fn a_save_being_written_is_never_a_slot() {
    let saves = Saves::under("/data/counter");
    for a in [0u8, 1, 9, 10, 255] {
        for b in [0u8, 1, 9, 10, 255] {
            assert_ne!(saves.pending(SaveSlot(a)), saves.path(SaveSlot(b)));
        }
    }
    assert!(saves.pending(SaveSlot(3)).ends_with("3.corvid.new"));
}
