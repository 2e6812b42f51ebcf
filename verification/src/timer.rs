//! Timer events: the only way in which time passes for the engine.

use vstd::prelude::*;

verus! {

/// A tick of the timer: the number of milliseconds that have passed since
/// the tick before it.
#[derive(Clone, Copy, Debug, PartialEq, Eq, Structural)]
pub struct TimerEvent(pub u64);

impl TimerEvent {
    /// A tick of `millis` milliseconds.
    pub fn from_millis(millis: u64) -> (event: TimerEvent)
        ensures
            event.0 == millis,
    {
        TimerEvent(millis)
    }

    /// The length of the tick in milliseconds.
    pub fn millis(&self) -> (millis: u64)
        ensures
            millis == self.0,
    {
        self.0
    }
}

} // verus!
