//! Which seat a client watches, and whether it plays it.

use vstd::prelude::*;

use crate::units::PlayerId;

verus! {

/// Where this client sits: always watching a seat, and playing it or not.
///
/// The two are one value because they are not independent: a client that
/// submitted for a seat it was not looking through would aim with one player's
/// camera and move another's body, and one that watched nobody would have
/// nothing to draw.
#[derive(Clone, Copy, Debug, PartialEq, Eq, Hash, Structural)]
pub enum Seating {
    /// Submits for this seat, and watches it.
    Playing(PlayerId),
    /// Submits for nobody, and watches this seat.
    Watching(PlayerId),
}

/// The seat a client watches.
pub open spec fn watched_seat(s: Seating) -> PlayerId {
    match s {
        Seating::Playing(seat) => seat,
        Seating::Watching(seat) => seat,
    }
}

/// The seat a client plays, if it plays one.
pub open spec fn played_seat(s: Seating) -> Option<PlayerId> {
    match s {
        Seating::Playing(seat) => Some(seat),
        Seating::Watching(_) => None,
    }
}

impl Seating {
    /// The seat this client's camera, renderer and ears belong to.
    pub fn watched(self) -> (r: PlayerId)
        ensures
            r == watched_seat(self),
    {
        match self {
            Seating::Playing(seat) | Seating::Watching(seat) => seat,
        }
    }

    /// The seat this client writes an action for, and nothing for a spectator.
    pub fn playing(self) -> (r: Option<PlayerId>)
        ensures
            r == played_seat(self),
    {
        match self {
            Seating::Playing(seat) => Some(seat),
            Seating::Watching(_) => None,
        }
    }
}

/// Playing the first seat, which is what a game run by one person is.
impl Default for Seating {
    fn default() -> (r: Self)
        ensures
            r == Seating::Playing(PlayerId(0)),
    {
        Seating::Playing(PlayerId(0))
    }
}

} // verus!
