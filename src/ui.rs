//! The opening text, read until the player clicks.
use vstd::prelude::*;

verus! {

/// Whether the opening text is still being read.
#[derive(Clone, Copy, Debug, PartialEq, Eq, Structural)]
pub struct Reading(pub bool);

/// Closes the opening text on a click.
#[derive(Debug)]
pub struct TextSystem;

impl TextSystem {
    /// One tick with the left mouse button `clicked` or not. Returns whether
    /// the opening text was closed, which happens on the first click while it
    /// is read.
    pub fn run(&mut self, reading: &mut Reading, clicked: bool) -> (closed: bool)
        ensures
            closed == (old(reading).0 && clicked),
            final(reading).0 == (old(reading).0 && !clicked),
    {
        if reading.0 && clicked {
            reading.0 = false;
            true
        } else {
            false
        }
    }
}

} // verus!
