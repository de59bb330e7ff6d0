//! The small numbers everything else is counted in.

use vstd::prelude::*;

verus! {

/// A tick of the simulation: the index of one step of the session.
#[derive(Clone, Copy, Debug, PartialEq, Eq, PartialOrd, Ord, Hash, Structural)]
pub struct Tick(pub u64);

/// A count of ticks, as a length of play rather than a position in it.
#[derive(Clone, Copy, Debug, PartialEq, Eq, PartialOrd, Ord, Hash, Structural)]
pub struct Ticks(pub u64);

/// A seat in a session's roster, counted from nought.
#[derive(Clone, Copy, Debug, Default, PartialEq, Eq, PartialOrd, Ord, Hash, Structural)]
pub struct PlayerId(pub u16);

/// A machine a transport reaches, counted from one: peer nought is nobody.
#[derive(Clone, Copy, Debug, PartialEq, Eq, PartialOrd, Ord, Hash, Structural)]
pub struct PeerId(pub u16);

/// A numbered save slot.
#[derive(Clone, Copy, Debug, PartialEq, Eq, PartialOrd, Ord, Hash, Structural)]
pub struct SaveSlot(pub u8);

/// The status a run asks the process to exit with.
#[derive(Clone, Copy, Debug, PartialEq, Eq, PartialOrd, Ord, Hash, Structural)]
pub struct ExitCode(pub u8);

/// A lobby a platform's overlay can join.
#[derive(Clone, Copy, Debug, PartialEq, Eq, PartialOrd, Ord, Hash, Structural)]
pub struct LobbyId(pub u64);

/// An achievement a platform can award.
#[derive(Clone, Copy, Debug, PartialEq, Eq, PartialOrd, Ord, Hash, Structural)]
pub struct AchievementId(pub u32);

/// A statistic a platform tracks.
#[derive(Clone, Copy, Debug, PartialEq, Eq, PartialOrd, Ord, Hash, Structural)]
pub struct StatId(pub u32);

/// The line a friends list shows.
#[derive(Clone, Debug, PartialEq, Eq, Hash)]
pub struct PresenceText(pub String);

/// A link to open outside the game.
#[derive(Clone, Debug, PartialEq, Eq, Hash)]
pub struct Url(pub String);

impl ExitCode {
    /// The status of a run that finished as it was meant to.
    pub fn success() -> (r: ExitCode)
        ensures
            r.0 == 0,
    {
        ExitCode(0)
    }
}

impl Tick {

    /// The tick after this one, standing still at the last representable one.
    pub fn next(self) -> (r: Tick)
        ensures
            r.0 == (if self.0 == u64::MAX { self.0 as int } else { self.0 + 1 }),
    {
        Tick(self.0.saturating_add(1))
    }

    /// How many ticks this one is past `earlier`, and nought for one before it.
    pub fn since(self, earlier: Tick) -> (r: u64)
        ensures
            r == (if self.0 >= earlier.0 { self.0 - earlier.0 } else { 0 }),
    {
        self.0.saturating_sub(earlier.0)
    }

    /// This tick moved `count` ticks on, standing still at the last one.
    pub fn saturating_add(self, count: u64) -> (r: Tick)
        ensures
            r.0 == (if self.0 + count > u64::MAX { u64::MAX as int } else { self.0 + count }),
    {
        Tick(self.0.saturating_add(count))
    }
}

/// The tick `count` ticks after `opened`, standing still at the last one.
pub open spec fn spec_after(count: Ticks, opened: Tick) -> Tick {
    Tick(if opened.0 + count.0 > u64::MAX { u64::MAX } else { (opened.0 + count.0) as u64 })
}

impl Ticks {
    /// The tick `self` ticks after `opened`, standing still at the last one.
    pub fn after(self, opened: Tick) -> (r: Tick)
        ensures
            r == spec_after(self, opened),
    {
        opened.saturating_add(self.0)
    }
}

} // verus!
