//! How much of the session a run keeps while it is running.

use vstd::prelude::*;

use crate::units::Tick;

verus! {

/// How much of its own history a run holds on to.
///
/// The default is bounded, and keeping everything is something a run asks for.
/// A bounded run holds at least `ticks` ticks once it has played that many,
/// and never more than twice that.
#[derive(Clone, Copy, Debug, PartialEq, Eq, Hash, Structural)]
#[non_exhaustive]
pub enum Retention {
    /// Every tick from the opening.
    Everything,
    /// The recent past, and enough of it for a rollback to land in.
    Recent {
        /// How far back the run is sure to be able to reach.
        ticks: u64,
    },
}

/// How many ticks [`Retention::recent`] is sure to reach back.
pub const RECENT_TICKS: u64 = 256;

impl Retention {
    /// The window a run gets when nobody says otherwise: seventeen seconds of
    /// ticks at fifteen a second, which is past a rollback, a desync bisection
    /// and a dev console's time slider with room.
    pub fn recent() -> (r: Retention)
        ensures
            r == (Retention::Recent { ticks: RECENT_TICKS }),
    {
        Retention::Recent { ticks: RECENT_TICKS }
    }
}

/// [`Retention::RECENT`], because a run nobody is recording must not grow.
impl Default for Retention {
    fn default() -> (r: Self)
        ensures
            r == (Retention::Recent { ticks: RECENT_TICKS }),
    {
        Retention::recent()
    }
}

/// How far back a running session is kept, and where it would reopen.
///
/// The setting is [`Retention`]; this is what the loop does with it. A bounded
/// run sets a state aside every window and forgets back to the one set aside a
/// window before, so what it holds sawtooths between one window and two.
#[derive(Clone, Copy, Debug, PartialEq, Eq, Hash, Structural)]
pub enum Horizon {
    /// Nothing is forgotten.
    Everything,
    /// A window, the tick the last state was set aside at (or the tick the run
    /// opened on before there is one), and whether a state has been set aside.
    Recent {
        /// How far back the run is sure to be able to reach.
        window: u64,
        /// Where the last state was set aside.
        marked: Tick,
        /// Whether a state is being held at `marked`.
        kept: bool,
    },
}

/// What the loop does about its far past on one tick.
#[derive(Clone, Copy, Debug, PartialEq, Eq, Hash, Structural)]
pub enum Forget {
    /// Nothing: the window has not gone by.
    Nothing,
    /// Set the state at this tick aside; there is nothing earlier to reopen at
    /// yet, so nothing is forgotten.
    SetAside,
    /// Set the state at this tick aside, and let the session forget everything
    /// before the tick the previous one was set aside at, reopening there.
    Before(Tick),
}

/// The horizon a run starts with, for a session opening at `opened`.
pub open spec fn spec_horizon(retention: Retention, opened: Tick) -> Horizon {
    match retention {
        Retention::Everything => Horizon::Everything,
        Retention::Recent { ticks } => Horizon::Recent { window: ticks, marked: opened, kept: false },
    }
}

/// What the loop decides at tick `at`, and the horizon after it.
pub open spec fn spec_forget(h: Horizon, at: Tick) -> (Horizon, Forget) {
    match h {
        Horizon::Everything => (h, Forget::Nothing),
        Horizon::Recent { window, marked, kept } => {
            let since = if at.0 >= marked.0 { at.0 - marked.0 } else { 0 };
            if since < window {
                (h, Forget::Nothing)
            } else {
                let next = Horizon::Recent { window, marked: at, kept: true };
                if kept { (next, Forget::Before(marked)) } else { (next, Forget::SetAside) }
            }
        },
    }
}

impl Horizon {
    /// The horizon a run starts with, for a session opening at `opened`.
    pub fn new(retention: Retention, opened: Tick) -> (r: Horizon)
        ensures
            r == spec_horizon(retention, opened),
    {
        match retention {
            Retention::Everything => Horizon::Everything,
            Retention::Recent { ticks } => Horizon::Recent { window: ticks, marked: opened, kept: false },
        }
    }

    /// Once a whole window has gone by since the last state was set aside, sets
    /// the state at `at` aside and says how far back the session may now
    /// forget: to the state set aside before, if there is one.
    pub fn forget(&mut self, at: Tick) -> (r: Forget)
        ensures
            (*final(self), r) == spec_forget(*old(self), at),
    {
        match *self {
            Horizon::Everything => Forget::Nothing,
            Horizon::Recent { window, marked, kept } => {
                if at.since(marked) < window {
                    return Forget::Nothing;
                }
                *self = Horizon::Recent { window, marked: at, kept: true };
                if kept {
                    Forget::Before(marked)
                } else {
                    Forget::SetAside
                }
            },
        }
    }
}

/// The first tick a session still holds after `n` more ticks past `at`, each
/// handed to [`Horizon::forget`] in turn, having held from `first` before them.
pub open spec fn walk(h: Horizon, first: Tick, at: nat, n: nat) -> (Horizon, Tick)
    decreases n,
{
    if n == 0 {
        (h, first)
    } else {
        let (h2, f2) = walk(h, first, at, (n - 1) as nat);
        let (h3, what) = spec_forget(h2, Tick((at + n) as u64));
        match what {
            Forget::Before(t) => (h3, t),
            _ => (h3, f2),
        }
    }
}

/// How often a state is set aside: every window, and every tick for a window
/// of nought.
pub open spec fn period(window: u64) -> nat {
    if window == 0 { 1 } else { window as nat }
}

/// The shape of a bounded run's horizon after `n` ticks past its opening `o`.
proof fn lemma_walk_shape(window: u64, o: nat, n: nat)
    requires
        o + n <= u64::MAX,
    ensures
        ({
            let (h, f) = walk(spec_horizon(Retention::Recent { ticks: window }, Tick(o as u64)), Tick(o as u64), o, n);
            let u = period(window);
            &&& h matches Horizon::Recent { window: w, marked, kept } && w == window && {
                &&& marked.0 <= o + n
                &&& o + n - marked.0 < u
                &&& (n < u ==> marked.0 == o && !kept && f.0 == o)
                &&& (n >= u ==> kept && marked.0 >= o + u && marked.0 - f.0 == u)
            }
        }),
    decreases n,
{
    if n > 0 {
        lemma_walk_shape(window, o, (n - 1) as nat);
    }
}

/// What a bounded run holds: once it has played a window past where it opened,
/// at least that window and less than two of them; before that, everything
/// since it opened. A window of nought is set aside every tick, and holds the
/// one row just written.
pub proof fn lemma_retention_window(window: u64, opened: u64, played: nat)
    requires
        opened + played <= u64::MAX,
    ensures
        ({
            let (_, first) = walk(
                spec_horizon(Retention::Recent { ticks: window }, Tick(opened)),
                Tick(opened),
                opened as nat,
                played,
            );
            let at = opened + played;
            let u = period(window);
            &&& first.0 <= at
            &&& (played < u ==> first.0 == opened)
            &&& (played >= u ==> u <= at - first.0 < 2 * u)
            &&& (played >= window ==> at - first.0 >= window)
        }),
{
    lemma_walk_shape(window, opened as nat, played);
}

/// A run that keeps everything never forgets anything.
pub proof fn lemma_everything_is_kept(opened: u64, played: nat)
    requires
        opened + played <= u64::MAX,
    ensures
        walk(Horizon::Everything, Tick(opened), opened as nat, played) == (Horizon::Everything, Tick(opened)),
    decreases played,
{
    if played > 0 {
        lemma_everything_is_kept(opened, (played - 1) as nat);
    }
}

} // verus!
