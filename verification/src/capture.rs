//! Where a run writes itself down: a directory with one picture and one audio
//! frame per displayed frame, the hash trace and the session.

use vstd::prelude::*;

use crate::paths::{join, spec_join};
use crate::text::{decimal, spec_decimal};
use crate::units::Tick;

verus! {

/// The subdirectory one picture per displayed frame goes in.
pub const FRAMES: &'static str = "frames";

/// The subdirectory one audio frame per displayed frame goes in.
pub const AUDIO: &'static str = "audio";

/// The file the hash trace goes in.
pub const TRACE: &'static str = "trace";

/// The file the session goes in.
pub const SESSION: &'static str = "session";

/// The extension a picture is written under.
pub const PNG: &'static str = "png";

/// A directory a run writes itself into.
#[derive(Clone, Debug, PartialEq, Eq)]
pub struct Capture {
    /// The directory everything is written under.
    root: String,
}

impl View for Capture {
    type V = Seq<char>;

    closed spec fn view(&self) -> Seq<char> {
        self.root@
    }
}

impl Capture {
    /// A capture under `root`.
    pub fn new(root: String) -> (r: Capture)
        ensures
            r@ == root@,
    {
        Capture { root }
    }

    /// The directories opening a capture creates: the root, and the two a frame
    /// is written into, which exist even when nothing is ever written there.
    pub fn directories(&self) -> (r: Vec<String>)
        ensures
            r@.len() == 3,
            r@[0]@ == self@,
            r@[1]@ == spec_join(self@, FRAMES@),
            r@[2]@ == spec_join(self@, AUDIO@),
    {
        let mut out = Vec::new();
        out.push(self.root.clone());
        out.push(join(self.root.as_str(), FRAMES));
        out.push(join(self.root.as_str(), AUDIO));
        out
    }

    /// Where the picture of the frame at `at` goes: named for its tick.
    pub fn picture(&self, at: Tick) -> (r: String)
        ensures
            r@ == spec_join(spec_join(self@, FRAMES@), spec_decimal(at.0 as nat) + "."@ + PNG@),
    {
        let frames = join(self.root.as_str(), FRAMES);
        let mut name = decimal(at.0);
        name.append(".");
        name.append(PNG);
        join(frames.as_str(), name.as_str())
    }

    /// Where the audio of the frame at `at` goes: named for its tick.
    pub fn audio(&self, at: Tick) -> (r: String)
        ensures
            r@ == spec_join(spec_join(self@, AUDIO@), spec_decimal(at.0 as nat)),
    {
        let frames = join(self.root.as_str(), AUDIO);
        let name = decimal(at.0);
        join(frames.as_str(), name.as_str())
    }

    /// Where the hash trace goes.
    pub fn trace(&self) -> (r: String)
        ensures
            r@ == spec_join(self@, TRACE@),
    {
        join(self.root.as_str(), TRACE)
    }

    /// Where the session goes.
    pub fn session(&self) -> (r: String)
        ensures
            r@ == spec_join(self@, SESSION@),
    {
        join(self.root.as_str(), SESSION)
    }
}

} // verus!
