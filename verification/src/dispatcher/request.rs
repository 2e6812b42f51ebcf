//! The requests that the reactor serves.

use vstd::prelude::*;
use std::sync::Arc;
use crate::event::Event;
use crate::timer::TimerEvent;

verus! {

/// What the reactor is asked to do.
pub enum Request<E: Event> {
    /// Deliver an event to the contexts that it matches.
    Message(Arc<E>),
    /// Let time pass in every open context.
    Timer(TimerEvent),
    /// Stop.
    Exit,
}

} // verus!
