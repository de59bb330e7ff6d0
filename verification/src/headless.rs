//! The backend with no window, no adapter and no audio device: it counts the
//! frames handed to it and says where each one's audio goes, if anywhere.

use vstd::prelude::*;

use crate::capture::Capture;
use crate::paths::spec_join;
use crate::text::spec_decimal;
use crate::capture::AUDIO;
use crate::units::Tick;

verus! {

/// The rectangle a pointer is reported against, in pixels.
#[derive(Clone, Copy, Debug, PartialEq, Eq, Hash, Structural)]
pub struct Viewport {
    /// Width, in pixels.
    pub width: u32,
    /// Height, in pixels.
    pub height: u32,
}

/// Where a displayed frame goes when there is nowhere to display it.
///
/// Only the audio of a frame is written, and only into a capture: drawing
/// needs a device, and the whole point of this backend is that there is not
/// one. It is what every run that did not ask for a window uses.
#[derive(Clone, Debug)]
pub struct Headless {
    /// Where to write, if anywhere.
    capture: Option<Capture>,
    /// How many frames have arrived.
    frames: u64,
}

/// [`Headless`] as plain values: the capture's root, if any, and the count.
pub struct HeadlessView {
    pub capture: Option<Seq<char>>,
    pub frames: u64,
}

impl View for Headless {
    type V = HeadlessView;

    closed spec fn view(&self) -> HeadlessView {
        HeadlessView {
            capture: match self.capture {
                Some(c) => Some(c@),
                None => None,
            },
            frames: self.frames,
        }
    }
}

impl Headless {
    /// A backend that writes into `capture`, or nowhere if there is none.
    pub fn new(capture: Option<Capture>) -> (r: Headless)
        ensures
            r@.frames == 0,
            r@.capture == (match capture {
                Some(c) => Some(c@),
                None => None::<Seq<char>>,
            }),
    {
        Headless { capture, frames: 0 }
    }

    /// Takes the frame displayed at `at`: counts it, and answers where its
    /// audio goes -- named for its tick in the capture's audio directory -- or
    /// nothing for a run that captures nothing.
    pub fn present(&mut self, at: Tick) -> (r: Option<String>)
        ensures
            final(self)@.capture == old(self)@.capture,
            final(self)@.frames == (if old(self)@.frames == u64::MAX {
                u64::MAX
            } else {
                (old(self)@.frames + 1) as u64
            }),
            match old(self)@.capture {
                Some(root) => r matches Some(path) && path@ == spec_join(
                    spec_join(root, AUDIO@),
                    spec_decimal(at.0 as nat),
                ),
                None => r is None,
            },
    {
        self.frames = self.frames.saturating_add(1);
        match &self.capture {
            Some(capture) => Some(capture.audio(at)),
            None => None,
        }
    }

    /// How big the target is: nothing, because there is nothing to draw into,
    /// and a game told a made-up size would lay its interface out for a
    /// display nobody has.
    pub fn viewport(&self) -> (r: Option<Viewport>)
        ensures
            r is None,
    {
        None
    }

    /// How many displayed frames have been handed over.
    pub fn frames(&self) -> (r: u64)
        ensures
            r == self@.frames,
    {
        self.frames
    }

    /// The capture directory, if there is one.
    pub fn capture(&self) -> (r: Option<&Capture>)
        ensures
            match r {
                Some(c) => self@.capture == Some(c@),
                None => self@.capture is None,
            },
    {
        match &self.capture {
            Some(c) => Some(c),
            None => None,
        }
    }
}

} // verus!
