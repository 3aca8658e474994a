//! The source of terminal events.
use vstd::prelude::*;

verus! {

/// Polls the terminal for key presses, and ticks when there are none.
pub struct EventHandler;

impl EventHandler {
    pub fn new() -> (r: EventHandler) {
        EventHandler
    }
}

} // verus!
