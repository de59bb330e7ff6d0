//! What the loop decides per tick: whether to stop, how the displayed pair of
//! states follows a peer, and what a save or a read is answered with.
//!
//! The states, the session and the devices are the program's; these are the
//! decisions it is driven by.

use vstd::prelude::*;

use crate::commands::Answer;
use crate::units::{ExitCode, Tick};

verus! {

/// Whether the loop carries on.
#[derive(Clone, Copy, Debug, PartialEq, Eq, Hash, Structural)]
pub enum Flow {
    /// Keep going.
    Go,
    /// Stop, with this status.
    Stop(ExitCode),
}

/// Whether the run has simulated as many ticks as it was asked for: always
/// false for a run that named no count.
pub open spec fn spec_reached(deadline: Option<Tick>, at: Tick) -> bool {
    match deadline {
        Some(end) => at.0 >= end.0,
        None => false,
    }
}

/// Whether the run has simulated as many ticks as it was asked for.
pub fn reached_the_count(deadline: Option<Tick>, at: Tick) -> (r: bool)
    ensures
        r == spec_reached(deadline, at),
{
    match deadline {
        Some(end) => at.0 >= end.0,
        None => false,
    }
}

/// The check before a tick runs: a run asked for no more ticks stops, so that
/// a count of nought is a run of no ticks at all.
pub fn before_tick(deadline: Option<Tick>, at: Tick) -> (r: Flow)
    ensures
        r == (if spec_reached(deadline, at) { Flow::Stop(ExitCode(0)) } else { Flow::Go }),
{
    if reached_the_count(deadline, at) {
        Flow::Stop(ExitCode::success())
    } else {
        Flow::Go
    }
}

/// The check after a tick has run at `at`: a quit the tick asked for stops the
/// loop with its status, then a count that has been reached, then the
/// caller's predicate (`stop`, already asked of the state at `at`).
pub fn after_tick(quit: Option<ExitCode>, deadline: Option<Tick>, at: Tick, stop: bool) -> (r: Flow)
    ensures
        r == (match quit {
            Some(code) => Flow::Stop(code),
            None => if spec_reached(deadline, at) || stop { Flow::Stop(ExitCode(0)) } else { Flow::Go },
        }),
{
    if let Some(code) = quit {
        return Flow::Stop(code);
    }
    if reached_the_count(deadline, at) {
        return Flow::Stop(ExitCode::success());
    }
    if stop {
        return Flow::Stop(ExitCode::success());
    }
    Flow::Go
}

/// How many ticks a reading of the clock runs: what the step owes, and none
/// while the controller has paused the simulation, so that a pause is not
/// caught up on afterwards.
pub fn owed(simulating: bool, stepped: u64) -> (r: u64)
    ensures
        r == (if simulating { stepped } else { 0 }),
{
    if simulating { stepped } else { 0 }
}

/// Where a run has got to, for whoever is watching it from another thread.
#[derive(Clone, Copy, Debug, PartialEq, Eq, Hash, Structural)]
pub struct Progress {
    /// The tick the runtime's current state is at.
    pub tick: Tick,
    /// The digest of that state: the trace's mark for the tick, or the digest
    /// of the state in hand where the trace has none.
    pub mark: u64,
    /// How many frames have been displayed.
    pub frames: u64,
    /// Whether the loop has stopped; the last value published has this set.
    pub finished: bool,
}

/// How the displayed pair of states follows a peer after a tick.
#[derive(Clone, Copy, Debug, PartialEq, Eq, Hash, Structural)]
pub enum Follow {
    /// Nothing moved.
    Stay,
    /// Ordinary forward play: the pair shifts by one.
    Shift,
    /// A rollback moved the state under the display: both ends become the
    /// corrected state, because the state a moment ago never happened.
    Reset,
}

/// How the displayed pair follows a peer that was at `was` and is now at `now`.
pub fn follow(was: Tick, now: Tick, corrected: bool) -> (r: Follow)
    ensures
        r == (if now.0 != was.0 || corrected {
            if was.0 < u64::MAX && now.0 == was.0 + 1 { Follow::Shift } else { Follow::Reset }
        } else {
            Follow::Stay
        }),
{
    if now.0 != was.0 || corrected {
        if was.0 < u64::MAX && now.0 == was.0 + 1 {
            Follow::Shift
        } else {
            Follow::Reset
        }
    } else {
        Follow::Stay
    }
}

/// What a save is answered with: done, or failed when the machine would not
/// write it. Neither ends the run.
pub fn saved(written: bool) -> (r: Answer)
    ensures
        r == (if written { Answer::Done } else { Answer::Failed }),
{
    if written { Answer::Done } else { Answer::Failed }
}

/// What a read is answered with: done for a slot with a save in it, empty for
/// one without, and failed for a directory that will not say.
pub fn looked(held: Option<bool>) -> (r: Answer)
    ensures
        r == (match held {
            Some(true) => Answer::Done,
            Some(false) => Answer::Empty,
            None => Answer::Failed,
        }),
{
    match held {
        Some(true) => Answer::Done,
        Some(false) => Answer::Empty,
        None => Answer::Failed,
    }
}

/// How many ticks a run alone plays, from `at`, with nothing asking it to quit
/// and no predicate: each iteration checks the count, runs a tick, and checks
/// the count again.
pub open spec fn ticks_run(deadline: Option<Tick>, at: nat, fuel: nat) -> nat
    decreases fuel,
{
    if fuel == 0 || at > u64::MAX || spec_reached(deadline, Tick(at as u64)) {
        0
    } else if at + 1 <= u64::MAX && spec_reached(deadline, Tick((at + 1) as u64)) {
        1
    } else {
        1 + ticks_run(deadline, at + 1, (fuel - 1) as nat)
    }
}

/// A run told to play `count` ticks from `opened` plays exactly that many,
/// counted from where it opened; a count of nought plays none.
pub proof fn lemma_count_is_exact(count: u64, opened: u64, fuel: nat)
    requires
        opened + count <= u64::MAX,
        fuel >= count,
    ensures
        ticks_run(Some(Tick((opened + count) as u64)), opened as nat, fuel) == count,
    decreases count,
{
    let deadline = Some(Tick((opened + count) as u64));
    if count > 1 {
        lemma_count_is_exact((count - 1) as u64, (opened + 1) as u64, (fuel - 1) as nat);
        assert(ticks_run(deadline, (opened + 1) as nat, (fuel - 1) as nat) == count - 1);
    }
}

} // verus!
