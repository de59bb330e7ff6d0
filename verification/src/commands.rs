//! What the runtime does with what a tick asked for.

use vstd::prelude::*;

use crate::units::{
    AchievementId, ExitCode, LobbyId, PlayerId, PresenceText, SaveSlot, StatId, Tick, Url,
};

verus! {

/// Whether a request is about the session every peer shares or about this one
/// machine.
#[derive(Clone, Copy, Debug, PartialEq, Eq, PartialOrd, Ord, Hash, Structural)]
pub enum Scope {
    /// Every peer has to agree about it.
    Global,
    /// It belongs to this machine.
    Local,
}

/// What the runtime did with one request.
///
/// Four answers rather than one bit, because "the runtime has no code for
/// this", "the runtime looked and there was nothing there" and "the machine
/// refused" are different findings, and only the first is a gap in the runtime.
#[derive(Clone, Copy, Debug, PartialEq, Eq, PartialOrd, Ord, Hash, Structural)]
#[non_exhaustive]
pub enum Answer {
    /// The runtime acted on it.
    Done,
    /// The runtime looked and there was nothing to find.
    Empty,
    /// The runtime had the code and the machine would not do it.
    Failed,
    /// The runtime has no code for the request. It was recorded, and nothing
    /// else happened.
    Unhandled,
}

/// What a tick asked for, as a value the runtime can route and record.
#[derive(Clone, Debug, PartialEq, Eq, Hash)]
#[non_exhaustive]
pub enum Command {
    /// Load a level, by name.
    Load(String),
    /// Drop one the simulation is finished with.
    Unload(String),
    /// Stop, with this status.
    Quit(ExitCode),
    /// Write a save.
    Save(SaveSlot),
    /// Ask whether there is a save in a slot.
    Read(SaveSlot),
    /// Capture the frame.
    Screenshot,
    /// Ask the platform's overlay to invite someone.
    Invite(PlayerId),
    /// Join a lobby.
    JoinLobby(LobbyId),
    /// Leave whichever lobby this peer is in.
    LeaveLobby,
    /// Set the line a friends list shows.
    SetPresence(PresenceText),
    /// Open a link outside the game.
    OpenUrl(Url),
    /// Award an achievement.
    Achieve(AchievementId),
    /// Set a tracked statistic.
    Stat {
        /// Which statistic.
        id: StatId,
        /// Its new value.
        value: i64,
    },
}

/// Whether a request is about the session or about one machine: loading,
/// quitting, saving, reading and lobbies are the session's; the rest are this
/// machine's.
pub open spec fn spec_scope(c: Command) -> Scope {
    match c {
        Command::Load(_) | Command::Unload(_) | Command::Quit(_) | Command::Save(_)
        | Command::Read(_) | Command::JoinLobby(_) | Command::LeaveLobby => Scope::Global,
        _ => Scope::Local,
    }
}

/// Which requests are the session's, which every peer has to agree about --
/// loading, unloading, quitting, saving, reading a slot and the lobbies -- and
/// which are this machine's: invitations, presence, links, screenshots,
/// achievements and statistics.
pub proof fn lemma_session_or_machine(c: Command)
    ensures
        (c is Load || c is Unload || c is Quit || c is Save || c is Read || c is JoinLobby
            || c is LeaveLobby) ==> spec_scope(c) == Scope::Global,
        (c is Invite || c is SetPresence || c is OpenUrl || c is Screenshot || c is Achieve
            || c is Stat) ==> spec_scope(c) == Scope::Local,
{
}

impl Command {
    /// Whether this request is about the session or about one machine.
    pub fn scope(&self) -> (r: Scope)
        ensures
            r == spec_scope(*self),
            (*self is Load || *self is Unload || *self is Quit || *self is Save || *self is Read
                || *self is JoinLobby || *self is LeaveLobby) ==> r == Scope::Global,
            (*self is Invite || *self is SetPresence || *self is OpenUrl || *self is Screenshot
                || *self is Achieve || *self is Stat) ==> r == Scope::Local,
    {
        match self {
            Command::Load(_) | Command::Unload(_) | Command::Quit(_) | Command::Save(_)
            | Command::Read(_) | Command::JoinLobby(_) | Command::LeaveLobby => Scope::Global,
            Command::Invite(_) | Command::SetPresence(_) | Command::OpenUrl(_)
            | Command::Screenshot | Command::Achieve(_) | Command::Stat { .. } => Scope::Local,
        }
    }
}

/// One request a tick made, and what became of it.
#[derive(Clone, Debug, PartialEq, Eq, Hash)]
pub struct Request {
    /// The tick whose `tick` returned the command.
    pub tick: Tick,
    /// What the runtime routed it as.
    pub scope: Scope,
    /// What became of it.
    pub answer: Answer,
    /// The request itself.
    pub command: Command,
}

/// Every request a run made, in the order the ticks made them.
#[derive(Clone, Debug, Default, PartialEq, Eq, Hash)]
pub struct Requests {
    /// Every request, in order.
    entries: Vec<Request>,
}

impl View for Requests {
    type V = Seq<Request>;

    closed spec fn view(&self) -> Seq<Request> {
        self.entries@
    }
}

/// The requests of `s` that were answered `a`, in order.
pub open spec fn answered(s: Seq<Request>, a: Answer) -> Seq<Request> {
    s.filter(|q: Request| q.answer == a)
}

/// The references in `s`, as what they refer to.
pub open spec fn unref(s: Seq<&Request>) -> Seq<Request> {
    s.map_values(|q: &Request| *q)
}

impl Requests {
    /// An empty record.
    pub fn new() -> (r: Requests)
        ensures
            r@ == Seq::<Request>::empty(),
    {
        Requests { entries: Vec::new() }
    }

    /// Every request, in the order the ticks made them.
    pub fn iter(&self) -> (r: &[Request])
        ensures
            r@ == self@,
    {
        self.entries.as_slice()
    }

    /// The ones answered `answer`, in order.
    fn answered(&self, answer: Answer) -> (r: Vec<&Request>)
        ensures
            unref(r@) == answered(self@, answer),
    {
        let mut out: Vec<&Request> = Vec::new();
        let n = self.entries.len();
        let mut i: usize = 0;
        while i < n
            invariant
                n == self.entries@.len(),
                i <= n,
                unref(out@) == answered(self.entries@.take(i as int), answer),
            decreases n - i,
        {
            let q = &self.entries[i];
            proof {
                reveal_with_fuel(Seq::<_>::filter, 1);
                assert(self.entries@.take(i + 1).drop_last() =~= self.entries@.take(i as int));
            }
            if q.answer == answer {
                out.push(q);
            }
            assert(unref(out@) =~= answered(self.entries@.take(i + 1), answer));
            i = i + 1;
        }
        assert(self.entries@.take(n as int) =~= self.entries@);
        out
    }

    /// Only the ones the runtime had no code for.
    pub fn unhandled(&self) -> (r: Vec<&Request>)
        ensures
            unref(r@) == answered(self@, Answer::Unhandled),
    {
        self.answered(Answer::Unhandled)
    }

    /// Only the ones the runtime tried and the machine refused.
    pub fn failed(&self) -> (r: Vec<&Request>)
        ensures
            unref(r@) == answered(self@, Answer::Failed),
    {
        self.answered(Answer::Failed)
    }

    /// How many requests were made.
    pub fn len(&self) -> (r: usize)
        ensures
            r == self@.len(),
    {
        self.entries.len()
    }

    /// Whether the run made none.
    pub fn is_empty(&self) -> (r: bool)
        ensures
            r == (self@.len() == 0),
    {
        self.entries.len() == 0
    }
}

/// What the runtime answers on its own for a request it acts on without the
/// session: a quit and a screenshot are done, and everything it has no code
/// for is unhandled.
pub open spec fn spec_act(c: Command) -> Answer {
    match c {
        Command::Quit(_) | Command::Screenshot => Answer::Done,
        _ => Answer::Unhandled,
    }
}

/// The runtime's end of [`Requests`]: the requests it acts on, and the record
/// it keeps of all of them.
#[derive(Debug, Default)]
pub struct Sink {
    /// What is handed back in the run's outcome.
    requests: Requests,
    /// Set by the first quit, which is what stops the loop.
    quit: Option<ExitCode>,
}

/// [`Sink`] as the record and the status a quit asked for.
#[verifier::ext_equal]
pub struct SinkView {
    pub requests: Seq<Request>,
    pub quit: Option<ExitCode>,
}

impl View for Sink {
    type V = SinkView;

    closed spec fn view(&self) -> SinkView {
        SinkView { requests: self.requests@, quit: self.quit }
    }
}

/// What the sink is after it takes one request: the request recorded at the
/// end, answered as the loop answered it or as the sink acts on it, and the
/// status of the first quit the sink acted on.
pub open spec fn absorbed(v: SinkView, at: Tick, command: Command, answered: Option<Answer>) -> SinkView {
    SinkView {
        requests: v.requests.push(
            Request {
                tick: at,
                scope: spec_scope(command),
                answer: match answered {
                    Some(a) => a,
                    None => spec_act(command),
                },
                command,
            },
        ),
        quit: match (answered, command) {
            (None, Command::Quit(code)) => if v.quit is None {
                Some(code)
            } else {
                v.quit
            },
            _ => v.quit,
        },
    }
}

/// The sink after it takes each of `asked`, in order: a tick, a request, and
/// what the loop already did with it.
pub open spec fn absorbed_all(v: SinkView, asked: Seq<(Tick, Command, Option<Answer>)>) -> SinkView
    decreases asked.len(),
{
    if asked.len() == 0 {
        v
    } else {
        let (at, command, answered) = asked.last();
        absorbed(absorbed_all(v, asked.drop_last()), at, command, answered)
    }
}

/// The status the first quit among `asked` that the sink acts on names.
pub open spec fn first_quit(asked: Seq<(Tick, Command, Option<Answer>)>) -> Option<ExitCode>
    decreases asked.len(),
{
    if asked.len() == 0 {
        None
    } else {
        match first_quit(asked.drop_last()) {
            Some(code) => Some(code),
            None => match asked.last() {
                (_, Command::Quit(code), None) => Some(code),
                _ => None,
            },
        }
    }
}

/// Nothing a tick asks for is dropped: every request is recorded, once, in the
/// order it was asked, with the tick that asked; and the run stops with the
/// status of the first quit, whatever later ones say.
pub proof fn lemma_nothing_is_dropped(v: SinkView, asked: Seq<(Tick, Command, Option<Answer>)>)
    ensures
        absorbed_all(v, asked).requests.len() == v.requests.len() + asked.len(),
        absorbed_all(v, asked).requests.take(v.requests.len() as int) == v.requests,
        forall|i: int| 0 <= i < asked.len() ==> {
            let q = #[trigger] absorbed_all(v, asked).requests[v.requests.len() + i];
            q.tick == asked[i].0 && q.command == asked[i].1 && q.scope == spec_scope(asked[i].1)
        },
        absorbed_all(v, asked).quit == (if v.quit is Some { v.quit } else { first_quit(asked) }),
    decreases asked.len(),
{
    if asked.len() > 0 {
        let init = asked.drop_last();
        lemma_nothing_is_dropped(v, init);
        let before = absorbed_all(v, init);
        let after = absorbed_all(v, asked);
        assert(after.requests.take(v.requests.len() as int) =~= before.requests.take(v.requests.len() as int));
        assert forall|i: int| 0 <= i < asked.len() implies {
            let q = #[trigger] after.requests[v.requests.len() + i];
            q.tick == asked[i].0 && q.command == asked[i].1 && q.scope == spec_scope(asked[i].1)
        } by {
            if i < asked.len() - 1 {
                assert(init[i] == asked[i]);
                assert(after.requests[v.requests.len() + i] == before.requests[v.requests.len() + i]);
            }
        }
    }
}

impl Sink {
    /// A sink that has been told nothing.
    pub fn new() -> (r: Sink)
        ensures
            r@.requests == Seq::<Request>::empty(),
            r@.quit is None,
    {
        Sink { requests: Requests::new(), quit: None }
    }

    /// Takes one request, acts on it if the runtime knows how, and records it
    /// either way.
    ///
    /// `at` is the tick that asked. `answered` is what the loop already did
    /// with it, for the two requests only the loop can act on, a save and a
    /// read; the first quit the sink acts on sets the status the run stops with.
    pub fn absorb(&mut self, at: Tick, command: Command, answered: Option<Answer>)
        ensures
            final(self)@ == absorbed(old(self)@, at, command, answered),
    {
        let scope = command.scope();
        let answer = match answered {
            Some(a) => a,
            None => self.act(&command),
        };
        self.requests.entries.push(Request { tick: at, scope, answer, command });
    }

    /// Whether a quit has been acted on, and what it asked to exit with.
    pub fn quit(&self) -> (r: Option<ExitCode>)
        ensures
            r == self@.quit,
    {
        self.quit
    }

    /// The record, to be handed to the caller.
    pub fn into_requests(self) -> (r: Requests)
        ensures
            r@ == self@.requests,
    {
        self.requests
    }

    /// Acts on the requests that need nothing but this record: the first quit
    /// sets the status, a screenshot is done, and anything else is recorded as
    /// a gap rather than panicked on or dropped.
    fn act(&mut self, command: &Command) -> (r: Answer)
        ensures
            r == spec_act(*command),
            final(self)@.requests == old(self)@.requests,
            final(self)@.quit == (match *command {
                Command::Quit(code) => if old(self)@.quit is None {
                    Some(code)
                } else {
                    old(self)@.quit
                },
                _ => old(self)@.quit,
            }),
    {
        match command {
            Command::Quit(code) => {
                if self.quit.is_none() {
                    self.quit = Some(*code);
                }
                Answer::Done
            },
            Command::Screenshot => Answer::Done,
            _ => Answer::Unhandled,
        }
    }
}

/// A sink that keeps what a tick asked for, in order.
#[derive(Debug, Default)]
pub struct Asked(pub Vec<Command>);

impl Asked {
    /// Asks to load a level.
    pub fn load(&mut self, name: &str)
        ensures
            final(self).0@.len() == old(self).0@.len() + 1,
            final(self).0@.drop_last() == old(self).0@,
            final(self).0@.last() matches Command::Load(n) && n@ == name@,
    {
        self.0.push(Command::Load(String::from_str(name)));
    }

    /// Asks to unload a level.
    pub fn unload(&mut self, name: &str)
        ensures
            final(self).0@.len() == old(self).0@.len() + 1,
            final(self).0@.drop_last() == old(self).0@,
            final(self).0@.last() matches Command::Unload(n) && n@ == name@,
    {
        self.0.push(Command::Unload(String::from_str(name)));
    }

    /// Asks to stop with `code`.
    pub fn quit(&mut self, code: ExitCode)
        ensures
            final(self).0@ == old(self).0@.push(Command::Quit(code)),
    {
        self.0.push(Command::Quit(code));
    }

    /// Asks to write a save.
    pub fn save(&mut self, slot: SaveSlot)
        ensures
            final(self).0@ == old(self).0@.push(Command::Save(slot)),
    {
        self.0.push(Command::Save(slot));
    }

    /// Asks whether there is a save in a slot.
    pub fn read(&mut self, slot: SaveSlot)
        ensures
            final(self).0@ == old(self).0@.push(Command::Read(slot)),
    {
        self.0.push(Command::Read(slot));
    }

    /// Asks to capture the frame.
    pub fn screenshot(&mut self)
        ensures
            final(self).0@ == old(self).0@.push(Command::Screenshot),
    {
        self.0.push(Command::Screenshot);
    }

    /// Asks the overlay to invite someone.
    pub fn invite(&mut self, player: PlayerId)
        ensures
            final(self).0@ == old(self).0@.push(Command::Invite(player)),
    {
        self.0.push(Command::Invite(player));
    }

    /// Asks to join a lobby.
    pub fn join_lobby(&mut self, lobby: LobbyId)
        ensures
            final(self).0@ == old(self).0@.push(Command::JoinLobby(lobby)),
    {
        self.0.push(Command::JoinLobby(lobby));
    }

    /// Asks to leave the lobby.
    pub fn leave_lobby(&mut self)
        ensures
            final(self).0@ == old(self).0@.push(Command::LeaveLobby),
    {
        self.0.push(Command::LeaveLobby);
    }

    /// Asks to set the presence line.
    pub fn set_presence(&mut self, presence: PresenceText)
        ensures
            final(self).0@ == old(self).0@.push(Command::SetPresence(presence)),
    {
        self.0.push(Command::SetPresence(presence));
    }

    /// Asks to open a link.
    pub fn open_url(&mut self, url: Url)
        ensures
            final(self).0@ == old(self).0@.push(Command::OpenUrl(url)),
    {
        self.0.push(Command::OpenUrl(url));
    }

    /// Asks to award an achievement.
    pub fn achieve(&mut self, achievement: AchievementId)
        ensures
            final(self).0@ == old(self).0@.push(Command::Achieve(achievement)),
    {
        self.0.push(Command::Achieve(achievement));
    }

    /// Asks to set a statistic.
    pub fn stat(&mut self, id: StatId, value: i64)
        ensures
            final(self).0@ == old(self).0@.push(Command::Stat { id, value }),
    {
        self.0.push(Command::Stat { id, value });
    }
}

} // verus!
