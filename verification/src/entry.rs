//! What a Corvid program answers a command line with, and what it reports and
//! exits with when the run is over.
//!
//! Writing to the streams and leaving the process are the program's; which
//! line and which status are decided here.

use vstd::prelude::*;

use crate::cli::{Argument, ArgumentView, Arguments};
use crate::text::{hex64, spec_hex64};
use crate::units::{ExitCode, Tick};

verus! {

/// What a process that could not read its command line exits with: the
/// conventional status for a usage error, apart from a run that failed.
pub const REFUSED: i32 = 2;

/// What a process whose run could not finish exits with.
pub const FAILED: i32 = 1;

/// How far back a reported digest is taken from: past the ticks a peer may
/// still be predicting, so that two machines report the same number.
pub const SETTLED: u64 = 20;

/// What a command line asks the program to do.
#[derive(Clone, Debug, PartialEq, Eq, Hash)]
pub enum CommandLine {
    /// Play, with these arguments.
    Play(Arguments),
    /// Write the usage to stdout and exit successfully.
    Usage,
    /// Write this refusal to stderr and exit with [`REFUSED`].
    Refused(Argument),
}

/// What a command line that parsed as `parsed` asks for: asking for the usage
/// is not a failure, and every other refusal is.
pub fn answer(parsed: Result<Arguments, Argument>) -> (r: CommandLine)
    ensures
        match parsed {
            Ok(a) => r == CommandLine::Play(a),
            Err(why) => if why@ == ArgumentView::Help { r == CommandLine::Usage } else { r == CommandLine::Refused(why) },
        },
{
    match parsed {
        Ok(a) => CommandLine::Play(a),
        Err(Argument::Help) => CommandLine::Usage,
        Err(why) => CommandLine::Refused(why),
    }
}

/// The tick a reported digest is taken from: [`SETTLED`] ticks before the last,
/// and the first tick for a run shorter than that.
pub fn settled(last: Tick) -> (r: Tick)
    ensures
        r.0 == (if last.0 >= SETTLED { last.0 - SETTLED } else { 0 }),
{
    Tick(last.0.saturating_sub(SETTLED))
}

/// The line a headless run writes to stdout: the settled digest as `0x` and
/// sixteen hex digits, or `unknown` where the trace has none for that tick.
pub fn digest_line(mark: Option<u64>) -> (r: String)
    ensures
        r@ == (match mark {
            Some(m) => spec_hex64(m),
            None => "unknown"@,
        }),
{
    match mark {
        Some(m) => hex64(m),
        None => String::from_str("unknown"),
    }
}

/// The status a finished run leaves the process with, where it is not the
/// ordinary success: the one its quit named.
pub fn exit_status(exit: ExitCode) -> (r: Option<i32>)
    ensures
        r == (if exit.0 == 0 { None::<i32> } else { Some(exit.0 as i32) }),
{
    if exit.0 == 0 {
        None
    } else {
        Some(exit.0 as i32)
    }
}

} // verus!
