//! What a run refuses with.
//!
//! Nothing here is a game's tick going wrong: a tick cannot fail. Every case is
//! about the session the loop was asked to play, the command line, or the
//! machine it was asked to write to. Where the reason comes from the machine,
//! it is carried as the sentence the machine gave.

use vstd::prelude::*;

use crate::cli::{Argument, spec_message};
use crate::saves::{NotASave, spec_not_a_save};
use crate::text::{push_decimal, spec_decimal};
use crate::units::{PlayerId, SaveSlot};

verus! {

/// What a run refuses with.
#[derive(Clone, Debug, PartialEq, Eq)]
#[non_exhaustive]
pub enum Error {
    /// A command line that could not be acted on.
    Argument(Argument),
    /// No opening was given, and nothing can invent a game's opening state.
    Unopened,
    /// The watched seat is not in the roster.
    Seat {
        /// The seat that was asked for.
        seat: PlayerId,
        /// How many seats the roster has.
        seats: usize,
    },
    /// Bots and a transport at once, which would leave the bots' seats unplayed.
    BotsAndPeers {
        /// How many bots were asked for.
        bots: u16,
    },
    /// A roster with no seats in it.
    NoSeats,
    /// The opening is not a session.
    Shape(String),
    /// The action log refused this tick's action.
    Log(String),
    /// Every peer simulated the same actions and did not reach the same state.
    Diverged(String),
    /// The port would not bind, or the other machine's address would not resolve.
    Socket {
        /// Which of the two it was.
        what: &'static str,
        /// The address.
        address: String,
        /// What the machine said.
        why: String,
    },
    /// A peer that cannot carry on.
    Halted(String),
    /// A file or directory would not take what was written to it.
    Wrote {
        /// Which.
        path: String,
        /// What the machine said.
        why: String,
    },
    /// A file that is there would not be read.
    Read {
        /// Which.
        path: String,
        /// What the machine said.
        why: String,
    },
    /// A file that is not a save this build can play.
    Saved {
        /// Which.
        path: String,
        /// Why not.
        why: NotASave,
    },
    /// A slot nothing has been written to.
    Empty {
        /// Which slot.
        slot: SaveSlot,
    },
    /// The device could not draw the run.
    Drew(String),
    /// The platform gave the run no window.
    NoWindow(String),
    /// A binding table this build cannot use.
    Bound {
        /// Which file.
        path: String,
        /// Why not.
        why: String,
    },
    /// The event loop ended before there was ever a window.
    NeverOpened,
    /// A settings file that is not this game's settings.
    Setting {
        /// Which file.
        path: String,
        /// Why not.
        why: String,
    },
    /// Something could not be encoded.
    Encoded {
        /// What.
        what: &'static str,
        /// Why not.
        why: String,
    },
}

/// The sentence each refusal is written as.
pub open spec fn spec_error(e: Error) -> Seq<char> {
    match e {
        Error::Argument(why) => spec_message(why@),
        Error::Unopened => UNOPENED@,
        Error::Seat { seat, seats } => "this client watches seat "@ + spec_decimal(seat.0 as nat)
            + " and the roster has "@ + spec_decimal(seats as nat) + SEAT@,
        Error::BotsAndPeers { bots } => "this run has "@ + spec_decimal(bots as nat) + BOTS@,
        Error::NoSeats => NO_SEATS@,
        Error::Shape(why) => "the opening is not a session: "@ + why@,
        Error::Log(why) => "the action log refused this tick's action: "@ + why@,
        Error::Diverged(why) => "this session diverged: "@ + why@ + DIVERGED@,
        Error::Socket { what, address, why } => "this run could not "@ + what@ + " "@ + address@
            + ": "@ + why@,
        Error::Halted(why) => "this peer cannot carry on: "@ + why@,
        Error::Wrote { path, why } => path@ + " could not be written: "@ + why@,
        Error::Read { path, why } => path@ + " could not be read: "@ + why@,
        Error::Saved { path, why } => path@ + " is not a save this build can play: "@
            + spec_not_a_save(why),
        Error::Empty { slot } => "nothing has been written to save slot "@ + spec_decimal(slot.0 as nat)
            + ", so there is nothing there to open"@,
        Error::Drew(why) => "the device could not draw this run: "@ + why@,
        Error::NoWindow(why) => "this run has no window: "@ + why@,
        Error::Bound { path, why } => path@ + " is not a binding table this build can use: "@ + why@,
        Error::NeverOpened => NEVER_OPENED@,
        Error::Setting { path, why } => path@ + " is not this game's settings: "@ + why@,
        Error::Encoded { what, why } => what@ + " could not be encoded: "@ + why@,
    }
}

/// [`Error::Unopened`]'s sentence.
pub const UNOPENED: &'static str = "this app has no opening, and nothing can invent a game's opening state for it";

/// The end of [`Error::Seat`]'s sentence.
pub const SEAT: &'static str = ", so there would be nobody to look through, and nowhere to record what it did if it played";

/// The end of [`Error::BotsAndPeers`]'s sentence.
pub const BOTS: &'static str = " bots and a transport, and a linked run never asks the bot -- so the seats asked for would have been played by nobody";

/// [`Error::NoSeats`]'s sentence.
pub const NO_SEATS: &'static str = "this session has no seats in its roster, so there is nobody to play and nobody to watch";

/// The end of [`Error::Diverged`]'s sentence.
pub const DIVERGED: &'static str = "; every peer simulated the same actions and did not reach the same state, which is a tick that is not a pure function of what it was handed";

/// [`Error::NeverOpened`]'s sentence.
pub const NEVER_OPENED: &'static str = "the event loop ended before the platform ever gave us a window, so this run played no ticks";

/// `prefix`, then `text`.
fn starting(prefix: &str, text: &str) -> (r: String)
    ensures
        r@ == prefix@ + text@,
{
    let mut out = String::from_str(prefix);
    out.append(text);
    out
}

impl Error {
    /// The sentence an operator reads for this refusal.
    pub fn message(&self) -> (r: String)
        ensures
            r@ == spec_error(*self),
    {
        match self {
            Error::Argument(why) => why.message(),
            Error::Unopened => String::from_str(UNOPENED),
            Error::Seat { seat, seats } => {
                let mut out = String::from_str("this client watches seat ");
                push_decimal(&mut out, seat.0 as u64);
                out.append(" and the roster has ");
                push_decimal(&mut out, *seats as u64);
                out.append(SEAT);
                out
            },
            Error::BotsAndPeers { bots } => {
                let mut out = String::from_str("this run has ");
                push_decimal(&mut out, *bots as u64);
                out.append(BOTS);
                out
            },
            Error::NoSeats => String::from_str(NO_SEATS),
            Error::Shape(why) => starting("the opening is not a session: ", why.as_str()),
            Error::Log(why) => starting("the action log refused this tick's action: ", why.as_str()),
            Error::Diverged(why) => {
                let mut out = starting("this session diverged: ", why.as_str());
                out.append(DIVERGED);
                out
            },
            Error::Socket { what, address, why } => {
                let mut out = starting("this run could not ", what);
                out.append(" ");
                out.append(address.as_str());
                out.append(": ");
                out.append(why.as_str());
                out
            },
            Error::Halted(why) => starting("this peer cannot carry on: ", why.as_str()),
            Error::Wrote { path, why } => {
                let mut out = starting(path.as_str(), " could not be written: ");
                out.append(why.as_str());
                out
            },
            Error::Read { path, why } => {
                let mut out = starting(path.as_str(), " could not be read: ");
                out.append(why.as_str());
                out
            },
            Error::Saved { path, why } => {
                let mut out = starting(path.as_str(), " is not a save this build can play: ");
                let said = why.message();
                out.append(said.as_str());
                out
            },
            Error::Empty { slot } => {
                let mut out = String::from_str("nothing has been written to save slot ");
                push_decimal(&mut out, slot.0 as u64);
                out.append(", so there is nothing there to open");
                out
            },
            Error::Drew(why) => starting("the device could not draw this run: ", why.as_str()),
            Error::NoWindow(why) => starting("this run has no window: ", why.as_str()),
            Error::Bound { path, why } => {
                let mut out = starting(path.as_str(), " is not a binding table this build can use: ");
                out.append(why.as_str());
                out
            },
            Error::NeverOpened => String::from_str(NEVER_OPENED),
            Error::Setting { path, why } => {
                let mut out = starting(path.as_str(), " is not this game's settings: ");
                out.append(why.as_str());
                out
            },
            Error::Encoded { what, why } => {
                let mut out = starting(what, " could not be encoded: ");
                out.append(why.as_str());
                out
            },
        }
    }
}

} // verus!
