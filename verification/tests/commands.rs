use corvid_app::{
    Answer, Asked, Command, ExitCode, LobbyId, Request, Requests, SaveSlot, Scope, Sink, Tick,
};

#[test]
fn the_first_quit_is_the_status() {
    let mut sink = Sink::new();
    sink.absorb(Tick(3), Command::Quit(ExitCode(4)), None);
    sink.absorb(Tick(3), Command::Quit(ExitCode(9)), None);
    assert_eq!(sink.quit(), Some(ExitCode(4)));
    let requests = sink.into_requests();
    assert_eq!(requests.len(), 2);
    assert!(requests.iter().iter().all(|q| q.answer == Answer::Done));
}

#[test]
fn a_request_the_runtime_has_no_code_for_is_recorded_not_dropped() {
    let mut sink = Sink::new();
    sink.absorb(Tick(1), Command::JoinLobby(LobbyId(7)), None);
    sink.absorb(Tick(2), Command::Screenshot, None);
    sink.absorb(Tick(2), Command::Save(SaveSlot(1)), Some(Answer::Failed));
    sink.absorb(Tick(5), Command::Read(SaveSlot(1)), Some(Answer::Empty));
    assert_eq!(sink.quit(), None);
    let requests = sink.into_requests();
    let unhandled = requests.unhandled();
    assert_eq!(
        unhandled,
        vec![&Request {
            tick: Tick(1),
            scope: Scope::Global,
            answer: Answer::Unhandled,
            command: Command::JoinLobby(LobbyId(7)),
        }],
    );
    let failed = requests.failed();
    assert_eq!(failed.len(), 1);
    assert_eq!(failed[0].command, Command::Save(SaveSlot(1)));
    assert_eq!(requests.iter()[1].scope, Scope::Local);
    assert_eq!(requests.iter()[3].answer, Answer::Empty);
}

#[test]
fn an_answer_the_loop_gave_is_not_acted_on_again() {
    let mut sink = Sink::new();
    sink.absorb(Tick(0), Command::Quit(ExitCode(1)), Some(Answer::Unhandled));
    assert_eq!(sink.quit(), None);
}

#[test]
fn scope_sorts_the_session_from_the_machine() {
    assert_eq!(Command::Load(String::from("a")).scope(), Scope::Global);
    assert_eq!(Command::LeaveLobby.scope(), Scope::Global);
    assert_eq!(Command::Screenshot.scope(), Scope::Local);
    assert_eq!(Command::Stat { id: corvid_app::StatId(1), value: -2 }.scope(), Scope::Local);
}

#[test]
fn a_tick_that_asks_for_nothing_records_nothing() {
    assert!(Requests::default().is_empty());
    assert!(Sink::new().into_requests().is_empty());
}

#[test]
fn what_a_tick_asked_for_is_kept_in_order() {
    let mut asked = Asked::default();
    asked.load("cave");
    asked.save(SaveSlot(2));
    asked.quit(ExitCode(0));
    asked.leave_lobby();
    assert_eq!(
        asked.0,
        vec![
            Command::Load(String::from("cave")),
            Command::Save(SaveSlot(2)),
            Command::Quit(ExitCode(0)),
            Command::LeaveLobby,
        ],
    );
}

#[test]
fn every_request_is_recorded_once_in_the_order_it_was_asked() {
    let asked = vec![
        (Tick(1), Command::Load(String::from("cave"))),
        (Tick(1), Command::Screenshot),
        (Tick(2), Command::Quit(ExitCode(3))),
        (Tick(4), Command::Quit(ExitCode(5))),
        (Tick(4), Command::OpenUrl(corvid_app::Url(String::from("https://example.org")))),
    ];
    let mut sink = Sink::new();
    for (at, command) in asked.iter().cloned() {
        sink.absorb(at, command, None);
    }
    assert_eq!(sink.quit(), Some(ExitCode(3)));
    let requests = sink.into_requests();
    assert_eq!(requests.len(), asked.len());
    for (recorded, (at, command)) in requests.iter().iter().zip(asked.iter()) {
        assert_eq!(recorded.tick, *at);
        assert_eq!(&recorded.command, command);
    }
}
