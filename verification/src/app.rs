//! The runtime as a builder, and every decision a run makes before its first
//! tick: which seats the bots play, when the run stops, how much it keeps,
//! what it opens on, which clock it reads and which backend it is shown on.
//!
//! The opening, the clock, the devices and the transport are the game's and
//! the machine's, and the program around this library holds them; what it
//! holds here is everything the decisions read.

use vstd::prelude::*;

use crate::capture::{AUDIO, Capture, FRAMES};
use crate::cli::{Arguments, Load};
use crate::error::Error;
use crate::paths::{join, spec_join};
use crate::retention::Retention;
use crate::text::{push_decimal, spec_decimal};
use crate::seating::{Seating, played_seat, watched_seat};
use crate::units::{PlayerId, SaveSlot, Tick, Ticks, spec_after};

verus! {

/// How big to draw when drawing to nothing but a texture.
#[derive(Clone, Copy, Debug, PartialEq, Eq, Hash, Structural)]
pub struct Extent {
    /// Width, in pixels.
    pub width: u32,
    /// Height, in pixels.
    pub height: u32,
}

/// Where a run is shown.
#[derive(Clone, Copy, Debug, PartialEq, Eq, Hash, Structural)]
pub enum Shown {
    /// In a window, with the devices read from it.
    Windowed,
    /// On an adapter, into a texture of this size.
    Offscreen(Extent),
    /// Nowhere: no window, no adapter and no audio device.
    Headless,
}

/// The clock a run reads real time from.
#[derive(Clone, Copy, Debug, PartialEq, Eq, Hash, Structural)]
pub enum ClockChoice {
    /// The one the caller gave.
    Given,
    /// The wall clock, because other machines keep real time.
    Wall,
    /// One tick period per reading, as fast as the processor allows.
    Stepping,
}

/// What a run opens on.
#[derive(Clone, Debug, PartialEq, Eq, Hash)]
pub enum Opens {
    /// A save slot.
    Slot(SaveSlot),
    /// A recorded session.
    Recording(String),
    /// The game's own opening.
    Fresh,
}

/// The runtime, as a builder: every setting a run reads before it starts.
///
/// Nothing here runs; every setting has a default, and the defaults are the
/// ones a headless run wants.
#[derive(Clone, Debug, PartialEq, Eq, Hash)]
pub struct App {
    /// Which seat this client watches, and whether it plays it.
    pub seating: Seating,
    /// How many of the roster's other seats the game's bot plays.
    pub bots: u16,
    /// Where to write the run down, if anywhere.
    pub capture: Option<String>,
    /// Where to write the session by itself, if anywhere.
    pub record: Option<String>,
    /// How much of the session to keep, or nothing to decide from whether the
    /// run is being written down.
    pub retention: Option<Retention>,
    /// What the operator asked for, applied when the run starts.
    pub arguments: Option<Arguments>,
    /// Where this game's own directory is, if not the default.
    pub state: Option<String>,
    /// The slot to open on.
    pub load: Option<SaveSlot>,
    /// The recorded session to open on.
    pub replay: Option<String>,
    /// A level a command line named, for the game's loader to open on.
    pub level: Option<String>,
    /// How many ticks to run.
    pub ticks: Option<Ticks>,
    /// Whether a window was asked for.
    pub windowed: bool,
    /// How big to draw offscreen, if that was asked for.
    pub offscreen: Option<Extent>,
    /// Whether the event loop may run off the main thread.
    pub any_thread: bool,
}

/// What a run is handed once the decisions before its first tick are made.
#[derive(Clone, Debug, PartialEq, Eq, Hash)]
pub struct Prepared {
    /// The seats the game's bot plays, in roster order.
    pub bots: Vec<PlayerId>,
    /// The tick to stop before, if a count was given.
    pub deadline: Option<Tick>,
    /// How much of the session to keep.
    pub retention: Retention,
}

/// What a run that passed every refusal before its first tick goes on with:
/// the decisions [`App::prepare`] makes, and the directories to make now.
#[derive(Clone, Debug, PartialEq, Eq, Hash)]
pub struct Started {
    /// The bots' seats, the deadline and what is kept.
    pub prepared: Prepared,
    /// The directories to create before the first tick: a capture's, where one
    /// was asked for, and none otherwise.
    pub directories: Vec<String>,
}

/// The app [`App::new`] builds.
pub open spec fn spec_new() -> App {
    App {
        seating: Seating::Playing(PlayerId(0)),
        bots: 0,
        capture: None,
        record: None,
        retention: None,
        arguments: None,
        state: None,
        load: None,
        replay: None,
        level: None,
        ticks: None,
        windowed: false,
        offscreen: None,
        any_thread: false,
    }
}

/// The builder calls a command line stands for, made when the run starts.
///
/// The seat before `--spectator`, so that `--spectator --seat 1` watches the
/// seat it was told to; `--seat 0` is what a command line that says nothing
/// reads as, so it leaves a seat a builder chose alone.
pub open spec fn spec_apply(app: App, a: Arguments) -> App {
    let app = if a.headless { App { windowed: false, offscreen: None, ..app } } else { app };
    let app = if a.ticks is Some { App { ticks: a.ticks, ..app } } else { app };
    let app = if a.record is Some { App { record: a.record, ..app } } else { app };
    let app = if a.state is Some { App { state: a.state, ..app } } else { app };
    let app = if a.seat != PlayerId(0) { App { seating: Seating::Playing(a.seat), ..app } } else { app };
    let app = if a.spectator {
        App {
            seating: Seating::Watching(
                match app.seating {
                    Seating::Playing(s) => s,
                    Seating::Watching(s) => s,
                },
            ),
            ..app
        }
    } else {
        app
    };
    let app = if a.num_bots > 0 { App { bots: a.num_bots, ..app } } else { app };
    match a.load {
        Some(Load::Save(slot)) => App { load: Some(slot), ..app },
        Some(Load::Demo(path)) => App { replay: Some(path), ..app },
        Some(Load::Level(json)) => App { level: Some(json), ..app },
        None => app,
    }
}

/// What [`App::settled`] makes of an app: the operator's word applied, once.
pub open spec fn spec_settled(app: App) -> App {
    match app.arguments {
        Some(a) => spec_apply(App { arguments: None, ..app }, a),
        None => app,
    }
}

/// A flag beats the builder call that sets the same thing, whichever of the two
/// was made first: the command line is applied when the run starts, so a
/// builder call made after [`App::arguments`] is overridden as surely as one
/// made before it.
pub proof fn lemma_flag_beats_builder(
    app: App,
    a: Arguments,
    ticks: Ticks,
    record: String,
    state: String,
    bots: u16,
    seat: PlayerId,
)
    ensures
        a.ticks is Some ==> {
            &&& spec_settled(App { ticks: Some(ticks), ..App { arguments: Some(a), ..app } }).ticks == a.ticks
            &&& spec_settled(App { arguments: Some(a), ..App { ticks: Some(ticks), ..app } }).ticks == a.ticks
        },
        a.record is Some ==> {
            &&& spec_settled(App { record: Some(record), ..App { arguments: Some(a), ..app } }).record == a.record
            &&& spec_settled(App { arguments: Some(a), ..App { record: Some(record), ..app } }).record == a.record
        },
        a.state is Some ==> {
            &&& spec_settled(App { state: Some(state), ..App { arguments: Some(a), ..app } }).state == a.state
            &&& spec_settled(App { arguments: Some(a), ..App { state: Some(state), ..app } }).state == a.state
        },
        a.num_bots > 0 ==> {
            &&& spec_settled(App { bots, ..App { arguments: Some(a), ..app } }).bots == a.num_bots
            &&& spec_settled(App { arguments: Some(a), ..App { bots, ..app } }).bots == a.num_bots
        },
        a.seat != PlayerId(0) && !a.spectator ==> {
            &&& spec_settled(
                App { seating: Seating::Playing(seat), ..App { arguments: Some(a), ..app } },
            ).seating == Seating::Playing(a.seat)
            &&& spec_settled(
                App { arguments: Some(a), ..App { seating: Seating::Playing(seat), ..app } },
            ).seating == Seating::Playing(a.seat)
        },
{
}

/// A run being written down keeps everything unless told otherwise: with no
/// retention asked for, a capture or a recording keeps the whole session, and
/// only a run written down nowhere keeps a window, of 256 ticks. A retention
/// asked for is kept as asked, in either direction.
pub proof fn lemma_written_runs_keep_everything(app: App)
    ensures
        app.retention is None && app.record is Some ==> spec_retention(app) == Retention::Everything,
        app.retention is None && app.capture is Some ==> spec_retention(app) == Retention::Everything,
        app.retention is None && app.capture is None && app.record is None
            ==> spec_retention(app) == (Retention::Recent { ticks: 256 }),
        app.retention matches Some(kept) ==> spec_retention(app) == kept,
{
}

/// `--headless` leaves a run with no device at all, whatever the builder asked
/// for before or after it: no window and no adapter. A command line without it
/// leaves the devices as the builder set them.
pub proof fn lemma_headless_flag_leaves_no_device(app: App, a: Arguments)
    ensures
        a.headless ==> !spec_apply(app, a).windowed && spec_apply(app, a).offscreen is None,
        a.headless ==> ({
            let settled = spec_settled(App { arguments: Some(a), ..app });
            !settled.windowed && settled.offscreen is None
        }),
        !a.headless ==> spec_apply(app, a).windowed == app.windowed
            && spec_apply(app, a).offscreen == app.offscreen,
{
}

/// The seats below `seats`, other than `played`, that the first `count` bots
/// take, in roster order.
pub open spec fn is_bot_seating(r: Seq<PlayerId>, seats: nat, played: Option<PlayerId>, count: nat) -> bool {
    &&& r.len() <= count
    &&& forall|i: int| 0 <= i < r.len() ==> (#[trigger] r[i]).0 < seats && Some(r[i]) != played
    &&& forall|i: int, j: int| 0 <= i < j < r.len() ==> r[i].0 < r[j].0
    &&& forall|s: u16|
        s < seats && Some(PlayerId(s)) != played && !r.contains(PlayerId(s)) ==> r.len() == count
            && forall|i: int| 0 <= i < r.len() ==> #[trigger] r[i].0 < s
}

/// What a run keeps: what was asked for, and otherwise everything for a run
/// being written down and the recent past for one that is not.
pub open spec fn spec_retention(app: App) -> Retention {
    match app.retention {
        Some(r) => r,
        None => if app.capture is Some || app.record is Some {
            Retention::Everything
        } else {
            Retention::Recent { ticks: crate::retention::RECENT_TICKS }
        },
    }
}

impl App {
    /// An app with every default.
    pub fn new() -> (r: App)
        ensures
            r == spec_new(),
    {
        App {
            seating: Seating::Playing(PlayerId(0)),
            bots: 0,
            capture: None,
            record: None,
            retention: None,
            arguments: None,
            state: None,
            load: None,
            replay: None,
            level: None,
            ticks: None,
            windowed: false,
            offscreen: None,
            any_thread: false,
        }
    }

    /// No window and no adapter.
    pub fn headless(self) -> (r: App)
        ensures
            r == (App { windowed: false, offscreen: None, ..self }),
    {
        App { windowed: false, offscreen: None, ..self }
    }

    /// A window.
    pub fn window(self) -> (r: App)
        ensures
            r == (App { windowed: true, ..self }),
    {
        App { windowed: true, ..self }
    }

    /// An adapter and no window, drawing into a texture of `size`.
    pub fn offscreen(self, size: Extent) -> (r: App)
        ensures
            r == (App { offscreen: Some(size), ..self }),
    {
        App { offscreen: Some(size), ..self }
    }

    /// Whether the event loop may run off the main thread.
    pub fn any_thread(self, allowed: bool) -> (r: App)
        ensures
            r == (App { any_thread: allowed, ..self }),
    {
        App { any_thread: allowed, ..self }
    }

    /// Writes the run down under `directory`.
    pub fn capture(self, directory: String) -> (r: App)
        ensures
            r == (App { capture: Some(directory), ..self }),
    {
        App { capture: Some(directory), ..self }
    }

    /// Keeps this game's files under `directory`.
    pub fn state(self, directory: String) -> (r: App)
        ensures
            r == (App { state: Some(directory), ..self }),
    {
        App { state: Some(directory), ..self }
    }

    /// Writes the session to `path` as the run plays.
    pub fn record(self, path: String) -> (r: App)
        ensures
            r == (App { record: Some(path), ..self }),
    {
        App { record: Some(path), ..self }
    }

    /// Opens on save slot `slot`.
    pub fn load(self, slot: SaveSlot) -> (r: App)
        ensures
            r == (App { load: Some(slot), ..self }),
    {
        App { load: Some(slot), ..self }
    }

    /// Opens on the session recorded at `path`, and carries it on.
    pub fn replay(self, path: String) -> (r: App)
        ensures
            r == (App { replay: Some(path), ..self }),
    {
        App { replay: Some(path), ..self }
    }

    /// Keeps this much of the session.
    pub fn retain(self, retention: Retention) -> (r: App)
        ensures
            r == (App { retention: Some(retention), ..self }),
    {
        App { retention: Some(retention), ..self }
    }

    /// Plays and watches `seat`.
    pub fn seat(self, seat: PlayerId) -> (r: App)
        ensures
            r == (App { seating: Seating::Playing(seat), ..self }),
    {
        App { seating: Seating::Playing(seat), ..self }
    }

    /// Lets the game's bot play `count` of the seats nobody else is in.
    pub fn bots(self, count: u16) -> (r: App)
        ensures
            r == (App { bots: count, ..self }),
    {
        App { bots: count, ..self }
    }

    /// Plays no seat, and watches the one this client would have played.
    pub fn spectating(self) -> (r: App)
        ensures
            r == (App {
                seating: Seating::Watching(
                    match self.seating {
                        Seating::Playing(s) => s,
                        Seating::Watching(s) => s,
                    },
                ),
                ..self
            }),
    {
        let watched = self.seating.watched();
        App { seating: Seating::Watching(watched), ..self }
    }

    /// An app that depends on nothing about the machine it is on: headless,
    /// with every default, keeping what it keeps in `directory` -- which the
    /// program names uniquely ([`sandbox_directory`]) and clears first, because
    /// a run that opened a previous run's saves would silently resume
    /// somebody else's game. This is what a test builds from.
    pub fn sandbox(directory: String) -> (r: App)
        ensures
            r == (App { state: Some(directory), ..spec_new() }),
    {
        App::new().headless().state(directory)
    }

    /// Stops once `ticks` ticks have run, counted from where the run opened.
    pub fn for_ticks(self, ticks: Ticks) -> (r: App)
        ensures
            r == (App { ticks: Some(ticks), ..self }),
    {
        App { ticks: Some(ticks), ..self }
    }

    /// Applies what the operator asked for when the run starts, so that a flag
    /// beats a builder call whichever was made first.
    pub fn arguments(self, arguments: Arguments) -> (r: App)
        ensures
            r == (App { arguments: Some(arguments), ..self }),
    {
        App { arguments: Some(arguments), ..self }
    }

    /// The builder calls a command line stands for.
    pub fn apply(self, a: Arguments) -> (r: App)
        ensures
            r == spec_apply(self, a),
            a.headless ==> !r.windowed && r.offscreen is None,
    {
        let mut app = self;
        if a.headless {
            app = app.headless();
        }
        if let Some(ticks) = a.ticks {
            app = app.for_ticks(ticks);
        }
        if let Some(path) = a.record {
            app = app.record(path);
        }
        if let Some(directory) = a.state {
            app = app.state(directory);
        }
        if a.seat.0 != 0 {
            app = app.seat(a.seat);
        }
        if a.spectator {
            app = app.spectating();
        }
        if a.num_bots > 0 {
            app = app.bots(a.num_bots);
        }
        match a.load {
            Some(Load::Save(slot)) => app.load(slot),
            Some(Load::Demo(path)) => app.replay(path),
            Some(Load::Level(json)) => App { level: Some(json), ..app },
            None => app,
        }
    }

    /// The app with the operator's word applied, once.
    pub fn settled(self) -> (r: App)
        ensures
            r == spec_settled(self),
    {
        match self.arguments {
            Some(a) => App { arguments: None, ..self }.apply(a),
            None => self,
        }
    }

    /// Refuses a run with bots and other machines at once: a linked run never
    /// asks the bot, so the seats asked for would be played by nobody.
    pub fn refuse_bots_and_peers(&self, networked: bool) -> (r: Result<(), Error>)
        ensures
            networked && self.bots > 0 ==> r == Err::<(), Error>(Error::BotsAndPeers { bots: self.bots }),
            !(networked && self.bots > 0) ==> r is Ok,
    {
        if networked && self.bots > 0 {
            return Err(Error::BotsAndPeers { bots: self.bots });
        }
        Ok(())
    }

    /// What the run opens on: a slot beats a recording, because it is the
    /// more specific of the two, and neither is the game's own opening.
    pub fn opens(&self) -> (r: Opens)
        ensures
            r == (match (self.load, self.replay) {
                (Some(slot), _) => Opens::Slot(slot),
                (None, Some(path)) => Opens::Recording(path),
                (None, None) => Opens::Fresh,
            }),
    {
        match (self.load, &self.replay) {
            (Some(slot), _) => Opens::Slot(slot),
            (None, Some(path)) => Opens::Recording(path.clone()),
            (None, None) => Opens::Fresh,
        }
    }

    /// Where the run is shown: a window if one was asked for, else an adapter
    /// drawing offscreen if that was, else nowhere.
    pub fn shown(&self) -> (r: Shown)
        ensures
            r == (if self.windowed {
                Shown::Windowed
            } else {
                match self.offscreen {
                    Some(size) => Shown::Offscreen(size),
                    None => Shown::Headless,
                }
            }),
    {
        if self.windowed {
            return Shown::Windowed;
        }
        match self.offscreen {
            Some(size) => Shown::Offscreen(size),
            None => Shown::Headless,
        }
    }

    /// The clock a run reads: the one given, or the wall clock for a run with
    /// other machines in it, which keep real time, or one tick period per
    /// reading for a run alone.
    pub fn chosen_clock(clock_given: bool, networked: bool) -> (r: ClockChoice)
        ensures
            r == (if clock_given {
                ClockChoice::Given
            } else if networked {
                ClockChoice::Wall
            } else {
                ClockChoice::Stepping
            }),
    {
        if clock_given {
            ClockChoice::Given
        } else if networked {
            ClockChoice::Wall
        } else {
            ClockChoice::Stepping
        }
    }

    /// Everything a run decides before its first tick, given how many seats the
    /// session it ends up playing has and the tick it opens at.
    ///
    /// An empty roster is refused before the seat is looked at, and a watched
    /// seat outside the roster is refused. The bots take the roster's seats in
    /// order, skipping the one this client plays. A count of ticks is counted
    /// from where the run opened.
    pub fn prepare(&self, seats: usize, opened: Tick) -> (r: Result<Prepared, Error>)
        ensures
            seats == 0 ==> r == Err::<Prepared, Error>(Error::NoSeats),
            seats > 0 && watched_seat(self.seating).0 >= seats ==> r == Err::<Prepared, Error>(
                Error::Seat { seat: watched_seat(self.seating), seats },
            ),
            seats > 0 && watched_seat(self.seating).0 < seats ==> (r matches Ok(p) && {
                &&& is_bot_seating(p.bots@, seats as nat, played_seat(self.seating), self.bots as nat)
                &&& p.deadline == (match self.ticks {
                    Some(t) => Some(spec_after(t, opened)),
                    None => None,
                })
                &&& p.retention == spec_retention(*self)
                &&& self.retention is None && (self.capture is Some || self.record is Some)
                    ==> p.retention == Retention::Everything
            }),
    {
        if seats == 0 {
            return Err(Error::NoSeats);
        }
        let watched = self.seating.watched();
        if watched.0 as usize >= seats {
            return Err(Error::Seat { seat: watched, seats });
        }
        let played = self.seating.playing();
        let mut bots: Vec<PlayerId> = Vec::new();
        let mut seat: usize = 0;
        while seat < seats && seat <= u16::MAX as usize && bots.len() < self.bots as usize
            invariant
                seats > 0,
                watched.0 < seats,
                seat <= seats,
                seat <= u16::MAX + 1,
                bots@.len() <= self.bots,
                forall|i: int| 0 <= i < bots@.len() ==> (#[trigger] bots@[i]).0 < seat && Some(bots@[i]) != played,
                forall|i: int, j: int| 0 <= i < j < bots@.len() ==> bots@[i].0 < bots@[j].0,
                forall|s: u16| s < seat && Some(PlayerId(s)) != played ==> #[trigger] bots@.contains(PlayerId(s)),
            decreases seats - seat,
        {
            let candidate = PlayerId(seat as u16);
            let skip = match played {
                Some(p) => p.0 == candidate.0,
                None => false,
            };
            let ghost before = bots@;
            if !skip {
                bots.push(candidate);
                assert forall|s: u16| s < seat + 1 && Some(PlayerId(s)) != played implies #[trigger] bots@.contains(PlayerId(s)) by {
                    if s == seat {
                        assert(bots@[bots@.len() - 1] == PlayerId(s));
                    } else {
                        assert(before.contains(PlayerId(s)));
                        let k = choose|k: int| 0 <= k < before.len() && before[k] == PlayerId(s);
                        assert(bots@[k] == PlayerId(s));
                    }
                }
            }
            seat = seat + 1;
        }
        let deadline = match self.ticks {
            Some(t) => Some(t.after(opened)),
            None => None,
        };
        let retention = match self.retention {
            Some(r) => r,
            None => if self.capture.is_some() || self.record.is_some() {
                Retention::Everything
            } else {
                Retention::recent()
            },
        };
        Ok(Prepared { bots, deadline, retention })
    }
}

impl App {
    /// Everything a run refuses or decides before its first tick, in the order
    /// it does it, given what only the program can find out: whether other
    /// machines are in the run, whether the game gave an opening, for a run told
    /// to open on a slot whether anything was written to it, how many seats the
    /// session it ends up playing has, and the tick it opens at.
    ///
    /// Bots beside other machines are refused first; then a run with no
    /// opening; then a slot nothing was written to; then the roster checks of
    /// [`prepare`](Self::prepare). Only a run that passes every one of them is
    /// handed directories to make, so a run that is not going to happen has
    /// created nothing on the way to saying so.
    pub fn start(
        &self,
        networked: bool,
        has_opening: bool,
        slot_written: bool,
        seats: usize,
        opened: Tick,
    ) -> (r: Result<Started, Error>)
        ensures
            networked && self.bots > 0 ==> r == Err::<Started, Error>(Error::BotsAndPeers { bots: self.bots }),
            !(networked && self.bots > 0) && !has_opening ==> r == Err::<Started, Error>(Error::Unopened),
            !(networked && self.bots > 0) && has_opening && !slot_written ==> (match self.load {
                Some(slot) => r == Err::<Started, Error>(Error::Empty { slot }),
                None => true,
            }),
            !(networked && self.bots > 0) && has_opening && (slot_written || self.load is None) ==> {
                &&& seats == 0 ==> r == Err::<Started, Error>(Error::NoSeats)
                &&& seats > 0 && watched_seat(self.seating).0 >= seats ==> r == Err::<Started, Error>(
                    Error::Seat { seat: watched_seat(self.seating), seats },
                )
                &&& seats > 0 && watched_seat(self.seating).0 < seats ==> (r matches Ok(s) && {
                    &&& is_bot_seating(s.prepared.bots@, seats as nat, played_seat(self.seating), self.bots as nat)
                    &&& s.prepared.deadline == (match self.ticks {
                        Some(t) => Some(spec_after(t, opened)),
                        None => None,
                    })
                    &&& s.prepared.retention == spec_retention(*self)
                    &&& self.retention is None && (self.capture is Some || self.record is Some)
                        ==> s.prepared.retention == Retention::Everything
                    &&& match self.capture {
                        Some(root) => s.directories@.len() == 3
                            && s.directories@[0]@ == root@
                            && s.directories@[1]@ == spec_join(root@, FRAMES@)
                            && s.directories@[2]@ == spec_join(root@, AUDIO@),
                        None => s.directories@.len() == 0,
                    }
                })
            },
    {
        self.refuse_bots_and_peers(networked)?;
        if !has_opening {
            return Err(Error::Unopened);
        }
        if let Some(slot) = self.load {
            if !slot_written {
                return Err(Error::Empty { slot });
            }
        }
        let prepared = match self.prepare(seats, opened) {
            Ok(p) => p,
            Err(why) => return Err(why),
        };
        let directories = match &self.capture {
            Some(root) => Capture::new(root.clone()).directories(),
            None => Vec::new(),
        };
        Ok(Started { prepared, directories })
    }
}

/// Where a sandbox keeps its files: a directory under the machine's temporary
/// one, named for the game, the process and a count this process keeps, so
/// that two sandboxes never share one.
pub fn sandbox_directory(temp: &str, name: &str, process: u32, unique: u64) -> (r: String)
    ensures
        r@ == spec_join(
            temp@,
            "corvid-sandbox-"@ + name@ + "-"@ + spec_decimal(process as nat) + "-"@ + spec_decimal(unique as nat),
        ),
{
    let mut leaf = String::from_str("corvid-sandbox-");
    leaf.append(name);
    leaf.append("-");
    push_decimal(&mut leaf, process as u64);
    leaf.append("-");
    push_decimal(&mut leaf, unique);
    proof {
        reveal_strlit("corvid-sandbox-");
        reveal_strlit("-");
    }
    join(temp, leaf.as_str())
}

} // verus!
