//! The command line: what a Corvid game answers to and how it is read.
//!
//! Reading the process's own arguments, and writing anything to its streams,
//! belong to the program around this library; what is here is the parser, the
//! refusals, and the sentence each refusal is written as.

use vstd::prelude::*;

use crate::text::{find, parse_number, push_decimal, same, spec_decimal, spec_number};
use crate::units::{PlayerId, SaveSlot, Ticks};

verus! {

/// What a game is told it accepts.
pub const USAGE: &'static str = "corvid: [--headless] [--spectator] [--bots N] [--ticks N]
        [--level NAME | --load N | --demo FILE] [--record FILE] [--state DIR]
        [--seat N] [--listen PORT --connect HOST:PORT]

  --headless        play with no window, no adapter and no audio device
  --spectator       claim no seat: submit nothing, and watch the seat this
                    machine would have played
  --bots N          let the game's bot play N seats nobody is in
  --ticks N         stop once N ticks have run, counted from where the run
                    opened
  --level NAME      open on this level rather than the game's own
  --load N          open on save slot N
  --demo FILE       open on the session in FILE, which is what --record wrote,
                    and carry it on
  --record FILE     write the session to FILE as the run plays
  --state DIR       put this game's saves, settings and bindings under DIR
                    rather than the user data dir
  --seat N          which seat this machine plays
  --listen PORT     bind this UDP port; goes with --connect, and either
                    without the other is refused
  --connect ADDR    the other machine, as HOST:PORT
  --help, -h        this";

/// What the run opens on: a level, a slot or a recording, and never two.
#[derive(Clone, Debug, PartialEq, Eq, Hash)]
#[non_exhaustive]
pub enum Load {
    /// A level's name, which the game's own loader reads.
    Level(String),
    /// A save slot.
    Save(SaveSlot),
    /// A recorded session, which is what `--record` wrote.
    Demo(String),
}

/// [`Load`] with its text as characters.
pub enum LoadView {
    Level(Seq<char>),
    Save(SaveSlot),
    Demo(Seq<char>),
}

impl View for Load {
    type V = LoadView;

    open spec fn view(&self) -> LoadView {
        match self {
            Load::Level(json) => LoadView::Level(json@),
            Load::Save(slot) => LoadView::Save(*slot),
            Load::Demo(path) => LoadView::Demo(path@),
        }
    }
}

/// What every Corvid game answers to.
///
/// Every field is something the operator decides rather than the game: whether
/// this machine has a display, who is at the controls, how long to run for,
/// where the run's files live, what to open on and who else is in it.
#[derive(Clone, Debug, Default, PartialEq, Eq, Hash)]
#[non_exhaustive]
pub struct Arguments {
    /// Open no window, no adapter and no audio device.
    pub headless: bool,
    /// Claim no seat: submit nothing, and watch the seat [`seat`](Self::seat) names.
    pub spectator: bool,
    /// How many unclaimed seats the game's bot plays.
    pub num_bots: u16,
    /// Stop once this many ticks have run, counted from where the run opened.
    pub ticks: Option<Ticks>,
    /// What to open on, rather than the game's own opening.
    pub load: Option<Load>,
    /// Where to write the session, so that `--demo` can open it again.
    pub record: Option<String>,
    /// Where this game's files live, rather than the user data dir.
    pub state: Option<String>,
    /// Which seat this machine plays.
    pub seat: PlayerId,
    /// The UDP port to bind, which means nothing without [`connect`](Self::connect).
    pub listen: Option<u16>,
    /// Where the other machine is, as `HOST:PORT`.
    pub connect: Option<String>,
}

/// [`Arguments`] with its text as characters.
pub struct ArgumentsView {
    pub headless: bool,
    pub spectator: bool,
    pub num_bots: u16,
    pub ticks: Option<Ticks>,
    pub load: Option<LoadView>,
    pub record: Option<Seq<char>>,
    pub state: Option<Seq<char>>,
    pub seat: PlayerId,
    pub listen: Option<u16>,
    pub connect: Option<Seq<char>>,
}

/// The view of an optional piece of text.
pub open spec fn opt_text(o: Option<String>) -> Option<Seq<char>> {
    match o {
        Some(s) => Some(s@),
        None => None,
    }
}

impl View for Arguments {
    type V = ArgumentsView;

    open spec fn view(&self) -> ArgumentsView {
        ArgumentsView {
            headless: self.headless,
            spectator: self.spectator,
            num_bots: self.num_bots,
            ticks: self.ticks,
            load: match self.load {
                Some(load) => Some(load@),
                None => None,
            },
            record: opt_text(self.record),
            state: opt_text(self.state),
            seat: self.seat,
            listen: self.listen,
            connect: opt_text(self.connect),
        }
    }
}

/// An argument this runtime could not act on.
///
/// [`Help`](Self::Help) is the odd one and is deliberate: asking for the usage
/// is not a failure, and it arrives here because the parser may not print.
#[derive(Clone, Debug, PartialEq, Eq, Hash)]
#[non_exhaustive]
pub enum Argument {
    /// The usage was asked for.
    Help,
    /// A flag this runtime does not have.
    Unknown {
        /// What was passed.
        argument: String,
    },
    /// A flag that takes a value, with nothing after it.
    Missing {
        /// Which flag.
        flag: &'static str,
    },
    /// A value on a flag that takes none.
    Unexpected {
        /// Which flag.
        flag: &'static str,
    },
    /// A count that is not a number.
    NotANumber {
        /// Which flag.
        flag: &'static str,
        /// What was passed for it.
        value: String,
    },
    /// Two flags that cannot both be acted on, in the order they were written.
    Conflicting {
        /// Which two.
        flags: [&'static str; 2],
    },
    /// A flag that means nothing without another one, written without it.
    Incomplete {
        /// What was written.
        flag: &'static str,
        /// What it needs beside it.
        needs: &'static str,
    },
    /// A `--listen`/`--connect` from a seat that pair of flags cannot arrange:
    /// two flags name one other machine, so they can only arrange seats 0 and 1.
    Pairing {
        /// The seat that was asked for.
        seat: PlayerId,
    },
    /// A `--level` that the game would not build from its name alone.
    UnreadableLevel {
        /// What was passed.
        value: String,
        /// What the game's own loader said.
        why: String,
    },
}

/// [`Argument`] with its text as characters.
pub enum ArgumentView {
    Help,
    Unknown { argument: Seq<char> },
    Missing { flag: Seq<char> },
    Unexpected { flag: Seq<char> },
    NotANumber { flag: Seq<char>, value: Seq<char> },
    Conflicting { first: Seq<char>, second: Seq<char> },
    Incomplete { flag: Seq<char>, needs: Seq<char> },
    Pairing { seat: PlayerId },
    UnreadableLevel { value: Seq<char>, why: Seq<char> },
}

impl View for Argument {
    type V = ArgumentView;

    open spec fn view(&self) -> ArgumentView {
        match self {
            Argument::Help => ArgumentView::Help,
            Argument::Unknown { argument } => ArgumentView::Unknown { argument: argument@ },
            Argument::Missing { flag } => ArgumentView::Missing { flag: flag@ },
            Argument::Unexpected { flag } => ArgumentView::Unexpected { flag: flag@ },
            Argument::NotANumber { flag, value } => ArgumentView::NotANumber {
                flag: flag@,
                value: value@,
            },
            Argument::Conflicting { flags } => ArgumentView::Conflicting {
                first: flags[0]@,
                second: flags[1]@,
            },
            Argument::Incomplete { flag, needs } => ArgumentView::Incomplete {
                flag: flag@,
                needs: needs@,
            },
            Argument::Pairing { seat } => ArgumentView::Pairing { seat: *seat },
            Argument::UnreadableLevel { value, why } => ArgumentView::UnreadableLevel {
                value: value@,
                why: why@,
            },
        }
    }
}

/// The flags this parser knows.
#[derive(Clone, Copy, PartialEq, Eq, Structural)]
pub enum Flag {
    Headless,
    Spectator,
    Bots,
    Ticks,
    Level,
    Load,
    Demo,
    Record,
    State,
    Seat,
    Listen,
    Connect,
    Help,
}

/// How a flag is spelled on a command line.
pub open spec fn flag_name(f: Flag) -> Seq<char> {
    match f {
        Flag::Headless => "--headless"@,
        Flag::Spectator => "--spectator"@,
        Flag::Bots => "--bots"@,
        Flag::Ticks => "--ticks"@,
        Flag::Level => "--level"@,
        Flag::Load => "--load"@,
        Flag::Demo => "--demo"@,
        Flag::Record => "--record"@,
        Flag::State => "--state"@,
        Flag::Seat => "--seat"@,
        Flag::Listen => "--listen"@,
        Flag::Connect => "--connect"@,
        Flag::Help => "--help"@,
    }
}

/// Which flag a word is, if it is one. `-h` is the only short spelling.
pub open spec fn spec_classify(s: Seq<char>) -> Option<Flag> {
    if s == "--headless"@ {
        Some(Flag::Headless)
    } else if s == "--spectator"@ {
        Some(Flag::Spectator)
    } else if s == "--bots"@ {
        Some(Flag::Bots)
    } else if s == "--ticks"@ {
        Some(Flag::Ticks)
    } else if s == "--level"@ {
        Some(Flag::Level)
    } else if s == "--load"@ {
        Some(Flag::Load)
    } else if s == "--demo"@ {
        Some(Flag::Demo)
    } else if s == "--record"@ {
        Some(Flag::Record)
    } else if s == "--state"@ {
        Some(Flag::State)
    } else if s == "--seat"@ {
        Some(Flag::Seat)
    } else if s == "--listen"@ {
        Some(Flag::Listen)
    } else if s == "--connect"@ {
        Some(Flag::Connect)
    } else if s == "--help"@ || s == "-h"@ {
        Some(Flag::Help)
    } else {
        None
    }
}

/// An argument as a flag and, after the first `=`, the value attached to it.
pub open spec fn spec_split(s: Seq<char>) -> (Seq<char>, Option<Seq<char>>) {
    match s.index_of_first('=') {
        Some(i) => (s.subrange(0, i), Some(s.subrange(i + 1, s.len() as int))),
        None => (s, None),
    }
}

/// Whether a flag is one of the three ways of naming what the run opens on.
pub open spec fn is_opening(f: Flag) -> bool {
    f == Flag::Level || f == Flag::Load || f == Flag::Demo
}

/// Whether a flag takes a value.
pub open spec fn takes_value(f: Flag) -> bool {
    !(f == Flag::Headless || f == Flag::Spectator || f == Flag::Help)
}

/// What the parser knows partway through a command line.
pub struct ReadingView {
    /// What has been read so far.
    pub parsed: ArgumentsView,
    /// Which way of opening was written, if any.
    pub opened: Option<Flag>,
    /// Where `--bots` was last written, counting flags from one.
    pub botted: Option<int>,
    /// Where `--connect` was last written, counting flags from one.
    pub peered: Option<int>,
    /// How many flags have been read.
    pub position: int,
}

/// Nothing read yet.
pub open spec fn initial_reading() -> ReadingView {
    ReadingView {
        parsed: ArgumentsView {
            headless: false,
            spectator: false,
            num_bots: 0,
            ticks: None,
            load: None,
            record: None,
            state: None,
            seat: PlayerId(0),
            listen: None,
            connect: None,
        },
        opened: None,
        botted: None,
        peered: None,
        position: 0,
    }
}

/// A count that is not a number, for `f`.
pub open spec fn not_a_number(f: Flag, v: Seq<char>) -> ArgumentView {
    ArgumentView::NotANumber { flag: flag_name(f), value: v }
}

/// What a flag that takes a value does with `v`.
pub open spec fn spec_with_value(st: ReadingView, f: Flag, v: Seq<char>) -> Result<
    ReadingView,
    ArgumentView,
> {
    let p = st.parsed;
    match f {
        Flag::Bots => match spec_number(v, u16::MAX as int) {
            Some(n) => Ok(
                ReadingView {
                    parsed: ArgumentsView { num_bots: n as u16, ..p },
                    botted: Some(st.position),
                    ..st
                },
            ),
            None => Err(not_a_number(f, v)),
        },
        Flag::Ticks => match spec_number(v, u64::MAX as int) {
            Some(n) => Ok(
                ReadingView { parsed: ArgumentsView { ticks: Some(Ticks(n as u64)), ..p }, ..st },
            ),
            None => Err(not_a_number(f, v)),
        },
        Flag::Level => Ok(
            ReadingView {
                parsed: ArgumentsView { load: Some(LoadView::Level(v)), ..p },
                opened: Some(f),
                ..st
            },
        ),
        Flag::Load => match spec_number(v, u8::MAX as int) {
            Some(n) => Ok(
                ReadingView {
                    parsed: ArgumentsView { load: Some(LoadView::Save(SaveSlot(n as u8))), ..p },
                    opened: Some(f),
                    ..st
                },
            ),
            None => Err(not_a_number(f, v)),
        },
        Flag::Demo => Ok(
            ReadingView {
                parsed: ArgumentsView { load: Some(LoadView::Demo(v)), ..p },
                opened: Some(f),
                ..st
            },
        ),
        Flag::Record => Ok(
            ReadingView { parsed: ArgumentsView { record: Some(v), ..p }, ..st },
        ),
        Flag::State => Ok(ReadingView { parsed: ArgumentsView { state: Some(v), ..p }, ..st }),
        Flag::Seat => match spec_number(v, u16::MAX as int) {
            Some(n) => Ok(
                ReadingView { parsed: ArgumentsView { seat: PlayerId(n as u16), ..p }, ..st },
            ),
            None => Err(not_a_number(f, v)),
        },
        Flag::Listen => match spec_number(v, u16::MAX as int) {
            Some(n) => Ok(
                ReadingView { parsed: ArgumentsView { listen: Some(n as u16), ..p }, ..st },
            ),
            None => Err(not_a_number(f, v)),
        },
        Flag::Connect => Ok(
            ReadingView {
                parsed: ArgumentsView { connect: Some(v), ..p },
                peered: Some(st.position),
                ..st
            },
        ),
        _ => Ok(st),
    }
}

/// What reading the argument at `i` does: the new reading and where the next
/// argument is, or the refusal.
///
/// A flag that takes a value takes it from after its `=`, or else from the
/// next argument. A second way of opening is refused before its value is read.
pub open spec fn spec_step(args: Seq<Seq<char>>, i: int, st: ReadingView) -> Result<
    (ReadingView, int),
    ArgumentView,
> {
    let st = ReadingView { position: st.position + 1, ..st };
    let (flag, attached) = spec_split(args[i]);
    match spec_classify(flag) {
        None => Err(ArgumentView::Unknown { argument: flag }),
        Some(f) => if f == Flag::Help {
            Err(ArgumentView::Help)
        } else if !takes_value(f) {
            if attached is Some {
                Err(ArgumentView::Unexpected { flag: flag_name(f) })
            } else if f == Flag::Headless {
                Ok((ReadingView { parsed: ArgumentsView { headless: true, ..st.parsed }, ..st }, i + 1))
            } else {
                Ok((ReadingView { parsed: ArgumentsView { spectator: true, ..st.parsed }, ..st }, i + 1))
            }
        } else if is_opening(f) && st.opened is Some && st.opened->0 != f {
            Err(ArgumentView::Conflicting { first: flag_name(st.opened->0), second: flag_name(f) })
        } else {
            let (value, next) = match attached {
                Some(v) => (Some(v), i + 1),
                None => if i + 1 < args.len() {
                    (Some(args[i + 1]), i + 2)
                } else {
                    (None, i + 1)
                },
            };
            match value {
                None => Err(ArgumentView::Missing { flag: flag_name(f) }),
                Some(v) => match spec_with_value(st, f, v) {
                    Ok(read) => Ok((read, next)),
                    Err(why) => Err(why),
                },
            }
        },
    }
}

/// Reads every argument from `i` on.
pub open spec fn spec_read(args: Seq<Seq<char>>, i: int, st: ReadingView) -> Result<
    ReadingView,
    ArgumentView,
>
    decreases args.len() - i,
{
    if i < 0 || i >= args.len() {
        Ok(st)
    } else {
        match spec_step(args, i, st) {
            Err(why) => Err(why),
            Ok((read, next)) => if next > i {
                spec_read(args, next, read)
            } else {
                Ok(read)
            },
        }
    }
}

/// The refusals about a whole command line rather than about one flag.
///
/// `--listen` and `--connect` name one link and either alone names half of
/// one; with a whole link, `--bots` above nought is refused, naming the two
/// flags in the order they were written.
pub open spec fn spec_coherent(a: ArgumentsView, botted: Option<int>, peered: Option<int>) -> Result<
    (),
    ArgumentView,
> {
    if a.listen is Some && a.connect is None {
        Err(ArgumentView::Incomplete { flag: "--listen"@, needs: "--connect"@ })
    } else if a.listen is None && a.connect is Some {
        Err(ArgumentView::Incomplete { flag: "--connect"@, needs: "--listen"@ })
    } else if a.listen is Some && a.num_bots >= 1 && botted is Some && peered is Some {
        if botted->0 < peered->0 {
            Err(ArgumentView::Conflicting { first: "--bots"@, second: "--connect"@ })
        } else {
            Err(ArgumentView::Conflicting { first: "--connect"@, second: "--bots"@ })
        }
    } else {
        Ok(())
    }
}

/// What a whole command line reads as.
pub open spec fn spec_parse(args: Seq<Seq<char>>) -> Result<ArgumentsView, ArgumentView> {
    match spec_read(args, 0, initial_reading()) {
        Err(why) => Err(why),
        Ok(read) => match spec_coherent(read.parsed, read.botted, read.peered) {
            Err(why) => Err(why),
            Ok(_) => Ok(read.parsed),
        },
    }
}

/// The characters of every argument.
pub open spec fn texts(args: Seq<String>) -> Seq<Seq<char>> {
    args.map_values(|s: String| s@)
}

/// The view of a parse's answer.
pub open spec fn parsed_view(r: Result<Arguments, Argument>) -> Result<ArgumentsView, ArgumentView> {
    match r {
        Ok(a) => Ok(a@),
        Err(e) => Err(e@),
    }
}

/// What the parser knows partway through, as values.
struct Reading {
    parsed: Arguments,
    opened: Option<Flag>,
    botted: Option<usize>,
    peered: Option<usize>,
    position: usize,
}

impl Reading {
    spec fn view(&self) -> ReadingView {
        ReadingView {
            parsed: self.parsed@,
            opened: self.opened,
            botted: match self.botted {
                Some(b) => Some(b as int),
                None => None,
            },
            peered: match self.peered {
                Some(b) => Some(b as int),
                None => None,
            },
            position: self.position as int,
        }
    }
}

/// Which flag a word is.
fn classify(flag: &str) -> (r: Option<Flag>)
    ensures
        r == spec_classify(flag@),
{
    if same(flag, "--headless") {
        Some(Flag::Headless)
    } else if same(flag, "--spectator") {
        Some(Flag::Spectator)
    } else if same(flag, "--bots") {
        Some(Flag::Bots)
    } else if same(flag, "--ticks") {
        Some(Flag::Ticks)
    } else if same(flag, "--level") {
        Some(Flag::Level)
    } else if same(flag, "--load") {
        Some(Flag::Load)
    } else if same(flag, "--demo") {
        Some(Flag::Demo)
    } else if same(flag, "--record") {
        Some(Flag::Record)
    } else if same(flag, "--state") {
        Some(Flag::State)
    } else if same(flag, "--seat") {
        Some(Flag::Seat)
    } else if same(flag, "--listen") {
        Some(Flag::Listen)
    } else if same(flag, "--connect") {
        Some(Flag::Connect)
    } else if same(flag, "--help") || same(flag, "-h") {
        Some(Flag::Help)
    } else {
        None
    }
}

/// How a flag is spelled.
fn name(f: Flag) -> (r: &'static str)
    ensures
        r@ == flag_name(f),
{
    match f {
        Flag::Headless => "--headless",
        Flag::Spectator => "--spectator",
        Flag::Bots => "--bots",
        Flag::Ticks => "--ticks",
        Flag::Level => "--level",
        Flag::Load => "--load",
        Flag::Demo => "--demo",
        Flag::Record => "--record",
        Flag::State => "--state",
        Flag::Seat => "--seat",
        Flag::Listen => "--listen",
        Flag::Connect => "--connect",
        Flag::Help => "--help",
    }
}

/// Splits an argument at its first `=`.
fn split(argument: &str) -> (r: (String, Option<String>))
    ensures
        (r.0@, opt_text(r.1)) == spec_split(argument@),
{
    match find(argument, '=') {
        Some(i) => {
            let n = argument.unicode_len();
            proof {
                argument@.index_of_first_ensures('=');
            }
            let flag = String::from_str(argument.substring_char(0, i));
            let value = String::from_str(argument.substring_char(i + 1, n));
            (flag, Some(value))
        },
        None => (String::from_str(argument), None),
    }
}

/// Reads a number of at most `max`, refusing it for `f` otherwise.
fn number(f: Flag, value: String, max: u64) -> (r: Result<u64, Argument>)
    ensures
        r matches Ok(n) ==> spec_number(value@, max as int) == Some(n as int) && n <= max,
        r matches Err(e) ==> spec_number(value@, max as int) is None && e@ == not_a_number(f, value@),
{
    match parse_number(value.as_str(), max) {
        Some(n) => Ok(n),
        None => Err(Argument::NotANumber { flag: name(f), value }),
    }
}

impl Arguments {
    /// What a game is told it accepts, for a `main` that wants to print it.
    pub const USAGE: &'static str = USAGE;

    /// What a flag that takes a value does with it.
    fn with_value(read: Reading, f: Flag, v: String) -> (r: Result<Reading, Argument>)
        requires
            takes_value(f),
        ensures
            match r {
                Ok(next) => spec_with_value(read.view(), f, v@) == Ok::<ReadingView, ArgumentView>(next.view()),
                Err(why) => spec_with_value(read.view(), f, v@) == Err::<ReadingView, ArgumentView>(why@),
            },
    {
        let ghost v_view = v@;
        let mut read = read;
        match f {
            Flag::Bots => {
                let n = number(f, v, u16::MAX as u64)?;
                read.parsed.num_bots = n as u16;
                read.botted = Some(read.position);
            },
            Flag::Ticks => {
                let n = number(f, v, u64::MAX)?;
                read.parsed.ticks = Some(Ticks(n));
            },
            Flag::Level => {
                read.opened = Some(f);
                read.parsed.load = Some(Load::Level(v));
            },
            Flag::Load => {
                let n = number(f, v, u8::MAX as u64)?;
                read.opened = Some(f);
                read.parsed.load = Some(Load::Save(SaveSlot(n as u8)));
            },
            Flag::Demo => {
                read.opened = Some(f);
                read.parsed.load = Some(Load::Demo(v));
            },
            Flag::Record => {
                read.parsed.record = Some(v);
            },
            Flag::State => {
                read.parsed.state = Some(v);
            },
            Flag::Seat => {
                let n = number(f, v, u16::MAX as u64)?;
                read.parsed.seat = PlayerId(n as u16);
            },
            Flag::Listen => {
                let n = number(f, v, u16::MAX as u64)?;
                read.parsed.listen = Some(n as u16);
            },
            Flag::Connect => {
                read.parsed.connect = Some(v);
                read.peered = Some(read.position);
            },
            _ => {},
        }
        Ok(read)
    }

    /// Reads the argument at `i`.
    fn step(args: &Vec<String>, i: usize, read: Reading) -> (r: Result<(Reading, usize), Argument>)
        requires
            i < args.len(),
            read.position < i + 1,
        ensures
            match r {
                Ok((next, j)) => spec_step(texts(args@), i as int, read.view())
                    == Ok::<(ReadingView, int), ArgumentView>((next.view(), j as int))
                    && i < j <= args.len() && next.position <= j,
                Err(why) => spec_step(texts(args@), i as int, read.view())
                    == Err::<(ReadingView, int), ArgumentView>(why@),
            },
    {
        let ghost all = texts(args@);
        assert(all[i as int] == args@[i as int]@);
        let mut read = read;
        read.position = read.position + 1;
        let (flag, attached) = split(args[i].as_str());
        match classify(flag.as_str()) {
            None => Err(Argument::Unknown { argument: flag }),
            Some(f) => {
                if f == Flag::Help {
                    return Err(Argument::Help);
                }
                if f == Flag::Headless || f == Flag::Spectator {
                    if attached.is_some() {
                        return Err(Argument::Unexpected { flag: name(f) });
                    }
                    if f == Flag::Headless {
                        read.parsed.headless = true;
                    } else {
                        read.parsed.spectator = true;
                    }
                    return Ok((read, i + 1));
                }
                if f == Flag::Level || f == Flag::Load || f == Flag::Demo {
                    if let Some(first) = read.opened {
                        if first != f {
                            return Err(Argument::Conflicting { flags: [name(first), name(f)] });
                        }
                    }
                }
                let (value, next) = match attached {
                    Some(v) => (v, i + 1),
                    None => {
                        if i + 1 < args.len() {
                            assert(all[i + 1] == args@[i + 1]@);
                            (args[i + 1].clone(), i + 2)
                        } else {
                            return Err(Argument::Missing { flag: name(f) });
                        }
                    },
                };
                match Self::with_value(read, f, value) {
                    Ok(done) => Ok((done, next)),
                    Err(why) => Err(why),
                }
            },
        }
    }

    /// The refusals that are about a whole command line rather than one flag.
    fn coherent(&self, botted: Option<usize>, peered: Option<usize>) -> (r: Result<(), Argument>)
        ensures
            match r {
                Ok(_) => spec_coherent(
                    self@,
                    match botted { Some(b) => Some(b as int), None => None },
                    match peered { Some(b) => Some(b as int), None => None },
                ) == Ok::<(), ArgumentView>(()),
                Err(why) => spec_coherent(
                    self@,
                    match botted { Some(b) => Some(b as int), None => None },
                    match peered { Some(b) => Some(b as int), None => None },
                ) == Err::<(), ArgumentView>(why@),
            },
    {
        match (self.listen, &self.connect) {
            (Some(_), None) => Err(Argument::Incomplete { flag: "--listen", needs: "--connect" }),
            (None, Some(_)) => Err(Argument::Incomplete { flag: "--connect", needs: "--listen" }),
            (Some(_), Some(_)) => {
                if self.num_bots >= 1 {
                    match (botted, peered) {
                        (Some(bots), Some(connect)) => {
                            if bots < connect {
                                Err(Argument::Conflicting { flags: ["--bots", "--connect"] })
                            } else {
                                Err(Argument::Conflicting { flags: ["--connect", "--bots"] })
                            }
                        },
                        _ => Ok(()),
                    }
                } else {
                    Ok(())
                }
            },
            (None, None) => Ok(()),
        }
    }

    /// Reads a command line, program name already removed.
    ///
    /// `--flag=value` and `--flag value` are the same argument, split on the
    /// first `=`. The same flag twice is the later one; two of `--level`,
    /// `--load` and `--demo` are two runs and are refused. `--help` or `-h` is
    /// [`Argument::Help`], which is not a failure and is reported as one
    /// because this function may not print.
    pub fn parse(arguments: Vec<String>) -> (r: Result<Arguments, Argument>)
        ensures
            parsed_view(r) == spec_parse(texts(arguments@)),
    {
        let ghost all = texts(arguments@);
        let mut read = Reading {
            parsed: Arguments {
                headless: false,
                spectator: false,
                num_bots: 0,
                ticks: None,
                load: None,
                record: None,
                state: None,
                seat: PlayerId(0),
                listen: None,
                connect: None,
            },
            opened: None,
            botted: None,
            peered: None,
            position: 0,
        };
        let n = arguments.len();
        let mut i: usize = 0;
        assert(read.view() == initial_reading());
        while i < n
            invariant
                n == arguments.len(),
                all == texts(arguments@),
                i <= n,
                read.position <= i,
                spec_read(all, 0, initial_reading()) == spec_read(all, i as int, read.view()),
            decreases n - i,
        {
            match Self::step(&arguments, i, read) {
                Ok((next, j)) => {
                    read = next;
                    i = j;
                },
                Err(why) => {
                    return Err(why);
                },
            }
        }
        match read.parsed.coherent(read.botted, read.peered) {
            Ok(()) => Ok(read.parsed),
            Err(why) => Err(why),
        }
    }
}

/// The sentence a refusal is written as, with the usage under it.
pub open spec fn spec_message(a: ArgumentView) -> Seq<char> {
    match a {
        ArgumentView::Help => USAGE@,
        ArgumentView::Unknown { argument } => argument + " is not an argument this runtime has\n\n"@
            + USAGE@,
        ArgumentView::Missing { flag } => flag + " takes a value and was given none\n\n"@ + USAGE@,
        ArgumentView::Unexpected { flag } => flag + " takes no value\n\n"@ + USAGE@,
        ArgumentView::NotANumber { flag, value } => flag + " takes a number and was given "@ + value
            + "\n\n"@ + USAGE@,
        ArgumentView::Conflicting { first, second } => first + " and "@ + second
            + " cannot both be given\n\n"@ + USAGE@,
        ArgumentView::Incomplete { flag, needs } => flag + " means nothing without "@ + needs
            + "\n\n"@ + USAGE@,
        ArgumentView::Pairing { seat } => "this machine plays seat "@ + spec_decimal(seat.0 as nat)
            + PAIRING@ + USAGE@,
        ArgumentView::UnreadableLevel { value, why } => "--level was given "@ + value
            + ", and this game will not build that level from its name alone: "@ + why + "\n\n"@
            + USAGE@,
    }
}

/// What follows the seat in [`Argument::Pairing`]'s sentence.
pub const PAIRING: &'static str = ", and --listen with --connect can only arrange the pair of seats 0 and 1: a session with more machines in it is assembled by a lobby, which is told who sits where rather than computing it\n\n";

impl Argument {
    /// The sentence an operator reads for this refusal, with the usage under it
    /// for every case; for [`Help`](Self::Help) it is the usage alone.
    pub fn message(&self) -> (r: String)
        ensures
            r@ == spec_message(self@),
    {
        match self {
            Argument::Help => String::from_str(USAGE),
            Argument::Unknown { argument } => {
                let mut out = argument.clone();
                out.append(" is not an argument this runtime has\n\n");
                out.append(USAGE);
                out
            },
            Argument::Missing { flag } => {
                let mut out = String::from_str(flag);
                out.append(" takes a value and was given none\n\n");
                out.append(USAGE);
                out
            },
            Argument::Unexpected { flag } => {
                let mut out = String::from_str(flag);
                out.append(" takes no value\n\n");
                out.append(USAGE);
                out
            },
            Argument::NotANumber { flag, value } => {
                let mut out = String::from_str(flag);
                out.append(" takes a number and was given ");
                out.append(value.as_str());
                out.append("\n\n");
                out.append(USAGE);
                out
            },
            Argument::Conflicting { flags } => {
                let mut out = String::from_str(flags[0]);
                out.append(" and ");
                out.append(flags[1]);
                out.append(" cannot both be given\n\n");
                out.append(USAGE);
                out
            },
            Argument::Incomplete { flag, needs } => {
                let mut out = String::from_str(flag);
                out.append(" means nothing without ");
                out.append(needs);
                out.append("\n\n");
                out.append(USAGE);
                out
            },
            Argument::Pairing { seat } => {
                let mut out = String::from_str("this machine plays seat ");
                push_decimal(&mut out, seat.0 as u64);
                out.append(PAIRING);
                out.append(USAGE);
                out
            },
            Argument::UnreadableLevel { value, why } => {
                let mut out = String::from_str("--level was given ");
                out.append(value.as_str());
                out.append(", and this game will not build that level from its name alone: ");
                out.append(why.as_str());
                out.append("\n\n");
                out.append(USAGE);
                out
            },
        }
    }
}

} // verus!

verus! {

/// Whether a reading so far is one every flag leaves it as: bots asked for
/// were written, and a `--connect` was written where there is one.
pub open spec fn consistent(st: ReadingView) -> bool {
    &&& st.parsed.num_bots > 0 ==> st.botted is Some
    &&& st.parsed.connect is Some ==> st.peered is Some
}

/// Reading on from a consistent reading leaves a consistent one.
proof fn lemma_read_consistent(args: Seq<Seq<char>>, i: int, st: ReadingView)
    requires
        consistent(st),
    ensures
        spec_read(args, i, st) matches Ok(done) ==> consistent(done),
    decreases args.len() - i,
{
    if 0 <= i < args.len() {
        match spec_step(args, i, st) {
            Ok((read, next)) => {
                if next > i {
                    lemma_read_consistent(args, next, read);
                }
            },
            Err(_) => {},
        }
    }
}

/// A command line that reads names a whole link or none of one, and never
/// bots beside one.
pub proof fn lemma_parsed_is_coherent(args: Seq<Seq<char>>)
    ensures
        spec_parse(args) matches Ok(a) ==> {
            &&& (a.listen is Some <==> a.connect is Some)
            &&& !(a.num_bots > 0 && a.connect is Some)
        },
{
    lemma_read_consistent(args, 0, initial_reading());
}


/// Reading on from where a run of arguments starts depends on that run alone,
/// not on what came before it.
proof fn lemma_read_shift(
    a: Seq<Seq<char>>,
    b: Seq<Seq<char>>,
    post: Seq<Seq<char>>,
    j: int,
    st: ReadingView,
)
    requires
        0 <= j,
    ensures
        spec_read(a + post, a.len() + j, st) == spec_read(b + post, b.len() + j, st),
    decreases post.len() - j,
{
    let x = a + post;
    let y = b + post;
    if j < post.len() {
        assert(x[a.len() + j] == post[j]);
        assert(y[b.len() + j] == post[j]);
        if j + 1 < post.len() {
            assert(x[a.len() + j + 1] == post[j + 1]);
            assert(y[b.len() + j + 1] == post[j + 1]);
        }
        match spec_step(x, a.len() + j, st) {
            Ok((read, next)) => {
                lemma_read_shift(a, b, post, next - a.len(), read);
            },
            Err(_) => {},
        }
    }
}

/// Every flag's spelling reads back as that flag, and none has an `=` in it.
proof fn lemma_flag_names(f: Flag)
    ensures
        spec_classify(flag_name(f)) == Some(f),
        forall|k: int| 0 <= k < flag_name(f).len() ==> flag_name(f)[k] != '=',
{
    reveal_strlit("--headless");
    reveal_strlit("--spectator");
    reveal_strlit("--bots");
    reveal_strlit("--ticks");
    reveal_strlit("--level");
    reveal_strlit("--load");
    reveal_strlit("--demo");
    reveal_strlit("--record");
    reveal_strlit("--state");
    reveal_strlit("--seat");
    reveal_strlit("--listen");
    reveal_strlit("--connect");
    reveal_strlit("--help");
    reveal_strlit("-h");
    assert("--headless"@.len() == 10 && "--headless"@[2] == 'h');
    assert("--spectator"@.len() == 11 && "--spectator"@[2] == 's');
    assert("--bots"@.len() == 6 && "--bots"@[2] == 'b');
    assert("--ticks"@.len() == 7 && "--ticks"@[2] == 't');
    assert("--level"@.len() == 7 && "--level"@[2] == 'l');
    assert("--load"@.len() == 6 && "--load"@[2] == 'l');
    assert("--demo"@.len() == 6 && "--demo"@[2] == 'd');
    assert("--record"@.len() == 8 && "--record"@[2] == 'r');
    assert("--state"@.len() == 7 && "--state"@[2] == 's');
    assert("--seat"@.len() == 6 && "--seat"@[2] == 's');
    assert("--listen"@.len() == 8 && "--listen"@[2] == 'l');
    assert("--connect"@.len() == 9 && "--connect"@[2] == 'c');
    assert("--help"@.len() == 6 && "--help"@[2] == 'h');
    assert("-h"@.len() == 2);
}

/// A word with no `=` in it splits into itself, and that word, an `=` and a
/// value split back into the two.
proof fn lemma_split_at_first(name: Seq<char>, v: Seq<char>)
    requires
        forall|k: int| 0 <= k < name.len() ==> name[k] != '=',
    ensures
        spec_split(name + seq!['='] + v) == (name, Some(v)),
        spec_split(name) == (name, None::<Seq<char>>),
{
    let s = name + seq!['='] + v;
    s.index_of_first_ensures('=');
    assert(s[name.len() as int] == '=');
    assert(s.contains('='));
    let k = s.index_of_first('=').unwrap();
    if k < name.len() {
        assert(s[k] == name[k]);
    }
    if k > name.len() {
        assert(s[name.len() as int] != '=');
    }
    assert(s.subrange(0, name.len() as int) =~= name);
    assert(s.subrange(name.len() as int + 1, s.len() as int) =~= v);
    name.index_of_first_ensures('=');
    if name.contains('=') {
        let j = choose|j: int| 0 <= j < name.len() && name[j] == '=';
        assert(name[j] != '=');
    }
}

/// `--flag=value` and `--flag value` are the same argument: read from where
/// the flag stands, whatever came before and whatever comes after, the two
/// spellings read alike.
pub proof fn lemma_attached_value_reads_alike(
    pre: Seq<Seq<char>>,
    post: Seq<Seq<char>>,
    f: Flag,
    v: Seq<char>,
    st: ReadingView,
)
    requires
        takes_value(f),
    ensures
        spec_read(pre + seq![flag_name(f) + seq!['='] + v] + post, pre.len() as int, st)
            == spec_read(pre + seq![flag_name(f), v] + post, pre.len() as int, st),
{
    let name = flag_name(f);
    lemma_flag_names(f);
    lemma_split_at_first(name, v);
    let a = pre + seq![name + seq!['='] + v];
    let b = pre + seq![name, v];
    let x = a + post;
    let y = b + post;
    let i = pre.len() as int;
    assert(x[i] == name + seq!['='] + v);
    assert(y[i] == name);
    assert(y[i + 1] == v);
    lemma_read_shift(a, b, post, 0, ReadingView { position: st.position + 1, ..st });
    match spec_with_value(ReadingView { position: st.position + 1, ..st }, f, v) {
        Ok(read) => {
            lemma_read_shift(a, b, post, 0, read);
            assert(spec_read(x, i + 1, read) == spec_read(y, i + 2, read));
        },
        Err(_) => {},
    }
}

/// The same, for a whole command line that starts with the flag.
pub proof fn lemma_attached_value_parses_alike(post: Seq<Seq<char>>, f: Flag, v: Seq<char>)
    requires
        takes_value(f),
    ensures
        spec_parse(seq![flag_name(f) + seq!['='] + v] + post)
            == spec_parse(seq![flag_name(f), v] + post),
{
    let empty = Seq::<Seq<char>>::empty();
    lemma_attached_value_reads_alike(empty, post, f, v, initial_reading());
    assert(empty + seq![flag_name(f) + seq!['='] + v] + post =~= seq![flag_name(f) + seq!['='] + v] + post);
    assert(empty + seq![flag_name(f), v] + post =~= seq![flag_name(f), v] + post);
}

/// Reading a flag that takes a value sets that flag's field to the value read,
/// whatever the field held before: the same flag twice is the later one.
pub proof fn lemma_value_flag_sets_its_field(st: ReadingView, f: Flag, v: Seq<char>)
    ensures
        spec_with_value(st, f, v) matches Ok(r) ==> match f {
            Flag::Bots => spec_number(v, u16::MAX as int) matches Some(n) && r.parsed.num_bots == n as u16,
            Flag::Ticks => spec_number(v, u64::MAX as int) matches Some(n) && r.parsed.ticks == Some(Ticks(n as u64)),
            Flag::Level => r.parsed.load == Some(LoadView::Level(v)),
            Flag::Load => spec_number(v, u8::MAX as int) matches Some(n)
                && r.parsed.load == Some(LoadView::Save(SaveSlot(n as u8))),
            Flag::Demo => r.parsed.load == Some(LoadView::Demo(v)),
            Flag::Record => r.parsed.record == Some(v),
            Flag::State => r.parsed.state == Some(v),
            Flag::Seat => spec_number(v, u16::MAX as int) matches Some(n) && r.parsed.seat == PlayerId(n as u16),
            Flag::Listen => spec_number(v, u16::MAX as int) matches Some(n) && r.parsed.listen == Some(n as u16),
            Flag::Connect => r.parsed.connect == Some(v),
            _ => true,
        },
{
}

/// Reading arguments that are all in `pre` goes the same whatever follows
/// `pre`: a command line that reads alone is read the same as the start of a
/// longer one, and ends where it does.
proof fn lemma_read_prefix(pre: Seq<Seq<char>>, rest: Seq<Seq<char>>, i: int, st: ReadingView)
    requires
        0 <= i <= pre.len(),
        spec_read(pre, i, st) is Ok,
    ensures
        spec_read(pre + rest, i, st) == spec_read(pre + rest, pre.len() as int, spec_read(pre, i, st)->Ok_0),
    decreases pre.len() - i,
{
    let all = pre + rest;
    if i < pre.len() {
        assert(all[i] == pre[i]);
        if i + 1 < pre.len() {
            assert(all[i + 1] == pre[i + 1]);
        }
        match spec_step(pre, i, st) {
            Ok((read, next)) => {
                assert(spec_step(all, i, st) == spec_step(pre, i, st));
                lemma_read_prefix(pre, rest, next, read);
            },
            Err(_) => {},
        }
    }
}

/// Reading on through words none of which is `--ticks` leaves the count of
/// ticks as it was.
proof fn lemma_no_ticks_flag_keeps_ticks(args: Seq<Seq<char>>, j: int, st: ReadingView)
    requires
        0 <= j,
        forall|k: int| j <= k < args.len() ==> #[trigger] spec_split(args[k]).0 != flag_name(Flag::Ticks),
    ensures
        spec_read(args, j, st) matches Ok(done) ==> done.parsed.ticks == st.parsed.ticks,
    decreases args.len() - j,
{
    if j < args.len() {
        match spec_step(args, j, st) {
            Ok((read, next)) => {
                assert(spec_split(args[j]).0 != flag_name(Flag::Ticks));
                assert(read.parsed.ticks == st.parsed.ticks);
                if next > j {
                    lemma_no_ticks_flag_keeps_ticks(args, next, read);
                }
            },
            Err(_) => {},
        }
    }
}

/// The same flag twice is the later one: a command line that reads, with
/// `--ticks N` written after everything else that names a count of ticks, runs
/// for `N` ticks whatever an earlier `--ticks` said.
pub proof fn lemma_later_ticks_win(pre: Seq<Seq<char>>, post: Seq<Seq<char>>, v: Seq<char>, n: u64)
    requires
        spec_read(pre, 0, initial_reading()) is Ok,
        spec_number(v, u64::MAX as int) == Some(n as int),
        forall|k: int| 0 <= k < post.len() ==> #[trigger] spec_split(post[k]).0 != flag_name(Flag::Ticks),
    ensures
        spec_parse(pre + seq![flag_name(Flag::Ticks), v] + post) matches Ok(a) ==> a.ticks == Some(Ticks(n)),
{
    let mid = seq![flag_name(Flag::Ticks), v];
    let args = pre + mid + post;
    let i = pre.len() as int;
    assert(args =~= pre + (mid + post));
    lemma_read_prefix(pre, mid + post, 0, initial_reading());
    let st = spec_read(pre, 0, initial_reading())->Ok_0;
    lemma_flag_names(Flag::Ticks);
    lemma_split_at_first(flag_name(Flag::Ticks), Seq::empty());
    assert(args[i] == flag_name(Flag::Ticks));
    assert(args[i + 1] == v);
    let st1 = ReadingView { position: st.position + 1, ..st };
    lemma_value_flag_sets_its_field(st1, Flag::Ticks, v);
    match spec_with_value(st1, Flag::Ticks, v) {
        Ok(read) => {
            assert(spec_step(args, i, st) == Ok::<(ReadingView, int), ArgumentView>((read, i + 2)));
            assert forall|k: int| i + 2 <= k < args.len() implies #[trigger] spec_split(args[k]).0 != flag_name(Flag::Ticks) by {
                assert(args[k] == post[k - i - 2]);
            }
            lemma_no_ticks_flag_keeps_ticks(args, i + 2, read);
        },
        Err(_) => {},
    }
}

} // verus!
