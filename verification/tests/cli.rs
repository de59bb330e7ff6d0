use corvid_app::{Argument, Arguments, Load, PlayerId, SaveSlot, Ticks, USAGE};

fn args(list: &[&str]) -> Vec<String> {
    list.iter().map(|s| s.to_string()).collect()
}

#[test]
fn a_headless_run_for_a_count_of_ticks() {
    let arguments = Arguments::parse(args(&["--headless", "--ticks=90"])).unwrap();
    assert!(arguments.headless);
    assert_eq!(arguments.ticks, Some(Ticks(90)));
    assert_eq!(arguments.record, None);
}

#[test]
fn the_three_ways_of_opening_are_one_field() {
    let resumed = Arguments::parse(args(&["--load", "3", "--state", "here/"])).unwrap();
    assert_eq!(resumed.load, Some(Load::Save(SaveSlot(3))));
    assert_eq!(resumed.state.as_deref(), Some("here/"));
}

#[test]
fn a_command_line_that_named_two_openings_named_two_runs() {
    assert_eq!(
        Arguments::parse(args(&["--load", "3", "--demo", "run/session"])),
        Err(Argument::Conflicting { flags: ["--load", "--demo"] }),
    );
    assert_eq!(
        Arguments::parse(args(&["--demo", "a", "--level", "\"one\""])),
        Err(Argument::Conflicting { flags: ["--demo", "--level"] }),
    );
}

#[test]
fn the_same_opening_twice_is_the_later_one() {
    let twice = Arguments::parse(args(&["--load", "3", "--load=4"])).unwrap();
    assert_eq!(twice.load, Some(Load::Save(SaveSlot(4))));
}

#[test]
fn a_value_attached_and_a_value_after_are_the_same_argument() {
    assert_eq!(
        Arguments::parse(args(&["--ticks", "100"])),
        Arguments::parse(args(&["--ticks=100"])),
    );
    let split = Arguments::parse(args(&["--record=a=b"])).unwrap();
    assert_eq!(split.record.as_deref(), Some("a=b"));
}

#[test]
fn every_flag_lands_in_its_field() {
    let all = Arguments::parse(args(&[
        "--spectator",
        "--bots",
        "2",
        "--level",
        "\"cave\"",
        "--record",
        "out/session",
        "--seat=1",
    ]))
    .unwrap();
    assert!(all.spectator);
    assert!(!all.headless);
    assert_eq!(all.num_bots, 2);
    assert_eq!(all.load, Some(Load::Level(String::from("\"cave\""))));
    assert_eq!(all.record.as_deref(), Some("out/session"));
    assert_eq!(all.seat, PlayerId(1));
    let linked = Arguments::parse(args(&["--listen", "4000", "--connect", "10.0.0.2:4001"])).unwrap();
    assert_eq!(linked.listen, Some(4000));
    assert_eq!(linked.connect.as_deref(), Some("10.0.0.2:4001"));
}

#[test]
fn nothing_is_the_defaults() {
    assert_eq!(Arguments::parse(Vec::new()), Ok(Arguments::default()));
}

#[test]
fn help_is_asked_for_rather_than_failed() {
    assert_eq!(Arguments::parse(args(&["--help"])), Err(Argument::Help));
    assert_eq!(Arguments::parse(args(&["--headless", "-h"])), Err(Argument::Help));
    assert_eq!(Argument::Help.message(), USAGE);
    assert_eq!(Arguments::USAGE, USAGE);
}

#[test]
fn each_refusal_names_what_was_wrong() {
    assert_eq!(
        Arguments::parse(args(&["--fast"])),
        Err(Argument::Unknown { argument: String::from("--fast") }),
    );
    assert_eq!(
        Arguments::parse(args(&["--fast=yes"])),
        Err(Argument::Unknown { argument: String::from("--fast") }),
    );
    assert_eq!(
        Arguments::parse(args(&["--ticks"])),
        Err(Argument::Missing { flag: "--ticks" }),
    );
    assert_eq!(
        Arguments::parse(args(&["--headless=false"])),
        Err(Argument::Unexpected { flag: "--headless" }),
    );
    assert_eq!(
        Arguments::parse(args(&["--ticks", "ninety"])),
        Err(Argument::NotANumber { flag: "--ticks", value: String::from("ninety") }),
    );
}

#[test]
fn a_count_is_what_an_unsigned_integer_reads_as() {
    let plus = Arguments::parse(args(&["--bots", "+3"])).unwrap();
    assert_eq!(plus.num_bots, 3);
    assert_eq!(
        Arguments::parse(args(&["--bots", "65536"])),
        Err(Argument::NotANumber { flag: "--bots", value: String::from("65536") }),
    );
    assert_eq!(
        Arguments::parse(args(&["--load", "256"])),
        Err(Argument::NotANumber { flag: "--load", value: String::from("256") }),
    );
    assert_eq!(
        Arguments::parse(args(&["--seat", "-1"])),
        Err(Argument::NotANumber { flag: "--seat", value: String::from("-1") }),
    );
    assert_eq!(
        Arguments::parse(args(&["--ticks", ""])),
        Err(Argument::NotANumber { flag: "--ticks", value: String::new() }),
    );
    assert_eq!(
        Arguments::parse(args(&["--ticks", "18446744073709551615"])).unwrap().ticks,
        Some(Ticks(u64::MAX)),
    );
}

#[test]
fn half_a_link_is_refused_either_way() {
    assert_eq!(
        Arguments::parse(args(&["--listen", "4000"])),
        Err(Argument::Incomplete { flag: "--listen", needs: "--connect" }),
    );
    assert_eq!(
        Arguments::parse(args(&["--connect", "h:1"])),
        Err(Argument::Incomplete { flag: "--connect", needs: "--listen" }),
    );
}

#[test]
fn bots_beside_a_link_are_refused_in_the_order_written() {
    assert_eq!(
        Arguments::parse(args(&["--bots", "1", "--listen", "1", "--connect", "h:2"])),
        Err(Argument::Conflicting { flags: ["--bots", "--connect"] }),
    );
    assert_eq!(
        Arguments::parse(args(&["--listen", "1", "--connect", "h:2", "--bots=1"])),
        Err(Argument::Conflicting { flags: ["--connect", "--bots"] }),
    );
    assert!(Arguments::parse(args(&["--bots", "0", "--listen", "1", "--connect", "h:2"])).is_ok());
}

#[test]
fn the_first_refusal_is_the_one_reported() {
    assert_eq!(
        Arguments::parse(args(&["--what", "--ticks"])),
        Err(Argument::Unknown { argument: String::from("--what") }),
    );
    assert_eq!(
        Arguments::parse(args(&["--load", "1", "--demo"])),
        Err(Argument::Conflicting { flags: ["--load", "--demo"] }),
    );
}

#[test]
fn a_refusal_is_a_sentence_and_the_usage() {
    let said = Argument::Missing { flag: "--seat" }.message();
    assert!(said.starts_with("--seat takes a value and was given none\n\n"));
    assert!(said.ends_with(USAGE));
    assert!(Argument::Pairing { seat: PlayerId(2) }.message().contains("seat 2"));
    assert_eq!(
        Argument::Conflicting { flags: ["--load", "--demo"] }.message(),
        format!("--load and --demo cannot both be given\n\n{USAGE}"),
    );
    assert_eq!(
        Argument::NotANumber { flag: "--bots", value: String::from("x") }.message(),
        format!("--bots takes a number and was given x\n\n{USAGE}"),
    );
    assert_eq!(
        Argument::UnreadableLevel { value: String::from("\"x\""), why: String::from("no") }.message(),
        format!(
            "--level was given \"x\", and this game will not build that level from its name \
             alone: no\n\n{USAGE}"
        ),
    );
}
