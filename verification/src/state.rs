//! The mutable part of a context: the events received while it is open and
//! its timers.

use vstd::prelude::*;
use std::sync::Arc;
use crate::event::Event;
use crate::timer::TimerEvent;

verus! {

/// A counter of milliseconds stops at the largest value it can hold.
pub open spec fn saturated(millis: nat) -> nat {
    if millis >= u64::MAX {
        u64::MAX as nat
    } else {
        millis
    }
}

/// What a `State` holds. All times are in milliseconds on the context's own
/// clock, which starts at zero when the context opens.
pub struct StateModel<E> {
    /// The events received while open, oldest first.
    pub messages: Seq<Arc<E>>,
    /// The time at which the context opened.
    pub opened_at: nat,
    /// The time at which the latest event arrived.
    pub last_message_at: nat,
    /// The time that has passed since the context opened.
    pub elapsed: nat,
    /// The time that has passed since the latest event arrived.
    pub elapsed_since_last: nat,
    pub open: bool,
}

impl<E> StateModel<E> {
    /// A closed state with no events and all timers at zero.
    pub open spec fn fresh() -> StateModel<E> {
        StateModel {
            messages: Seq::empty(),
            opened_at: 0,
            last_message_at: 0,
            elapsed: 0,
            elapsed_since_last: 0,
            open: false,
        }
    }

    /// What holds of the timers at all times.
    pub open spec fn consistent(self) -> bool {
        &&& self.elapsed_since_last <= self.elapsed
        &&& self.opened_at <= self.last_message_at
        &&& self.last_message_at <= self.elapsed
        &&& self.elapsed <= u64::MAX
    }

    /// What holds of a state between two inputs: the timers are consistent,
    /// and a closed state is fresh.
    pub open spec fn settled(self) -> bool {
        &&& self.consistent()
        &&& !self.open ==> self == Self::fresh()
    }

    /// The state after `open`.
    pub open spec fn opened(self) -> StateModel<E> {
        StateModel {
            messages: self.messages,
            opened_at: 0,
            last_message_at: 0,
            elapsed: 0,
            elapsed_since_last: 0,
            open: true,
        }
    }

    /// The state after `add_message`.
    pub open spec fn with_message(self, event: Arc<E>) -> StateModel<E> {
        StateModel {
            messages: self.messages.push(event),
            last_message_at: self.elapsed,
            elapsed_since_last: 0,
            ..self
        }
    }

    /// The state after `update_timers` with a tick of `millis`.
    pub open spec fn ticked(self, millis: nat) -> StateModel<E> {
        StateModel {
            elapsed: saturated(self.elapsed + millis),
            elapsed_since_last: saturated(self.elapsed_since_last + millis),
            ..self
        }
    }

    /// The state after `close`.
    pub open spec fn closed(self) -> StateModel<E> {
        Self::fresh()
    }
}

/// The buffer and the timers of one context.
pub struct State<E: Event> {
    messages: Vec<Arc<E>>,
    opened_at: u64,
    last_message_at: u64,
    elapsed: u64,
    elapsed_since_last: u64,
    open: bool,
}

impl<E: Event> View for State<E> {
    type V = StateModel<E>;

    closed spec fn view(&self) -> StateModel<E> {
        StateModel {
            messages: self.messages@,
            opened_at: self.opened_at as nat,
            last_message_at: self.last_message_at as nat,
            elapsed: self.elapsed as nat,
            elapsed_since_last: self.elapsed_since_last as nat,
            open: self.open,
        }
    }
}

impl<E: Event> State<E> {
    /// A closed state with no events.
    pub fn new() -> (state: State<E>)
        ensures
            state@ == StateModel::<E>::fresh(),
    {
        State {
            messages: Vec::new(),
            opened_at: 0,
            last_message_at: 0,
            elapsed: 0,
            elapsed_since_last: 0,
            open: false,
        }
    }

    pub fn is_open(&self) -> (open: bool)
        ensures
            open == self@.open,
    {
        self.open
    }

    /// The events received since the context opened, oldest first.
    pub fn messages(&self) -> (messages: &Vec<Arc<E>>)
        ensures
            messages@ == self@.messages,
    {
        &self.messages
    }

    /// The milliseconds that have passed since the context opened.
    pub fn elapsed_time(&self) -> (millis: u64)
        ensures
            millis == self@.elapsed,
    {
        self.elapsed
    }

    /// The milliseconds that have passed since the latest event arrived.
    pub fn elapsed_time_since_last_message(&self) -> (millis: u64)
        ensures
            millis == self@.elapsed_since_last,
    {
        self.elapsed_since_last
    }

    /// The time at which the context opened, on its own clock.
    pub fn opened_at(&self) -> (millis: u64)
        ensures
            millis == self@.opened_at,
    {
        self.opened_at
    }

    /// The time at which the latest event arrived, on the context's clock.
    pub fn last_message_at(&self) -> (millis: u64)
        ensures
            millis == self@.last_message_at,
    {
        self.last_message_at
    }

    /// Opens the state and starts its clock at zero. The events that are
    /// already buffered stay.
    pub fn open(&mut self)
        requires
            !old(self)@.open,
        ensures
            final(self)@ == old(self)@.opened(),
    {
        self.opened_at = 0;
        self.last_message_at = 0;
        self.elapsed = 0;
        self.elapsed_since_last = 0;
        self.open = true;
    }

    /// Appends `event` and restarts the time since the latest event.
    pub fn add_message(&mut self, event: Arc<E>)
        ensures
            final(self)@ == old(self)@.with_message(event),
    {
        self.messages.push(event);
        self.last_message_at = self.elapsed;
        self.elapsed_since_last = 0;
    }

    /// Advances both timers by the length of `tick`.
    pub fn update_timers(&mut self, tick: &TimerEvent)
        ensures
            final(self)@ == old(self)@.ticked(tick.0 as nat),
    {
        self.elapsed = self.elapsed.saturating_add(tick.0);
        self.elapsed_since_last = self.elapsed_since_last.saturating_add(tick.0);
    }

    /// Forgets the events, zeroes the timers and closes the state.
    pub fn close(&mut self)
        ensures
            final(self)@ == old(self)@.closed(),
    {
        self.messages = Vec::new();
        self.opened_at = 0;
        self.last_message_at = 0;
        self.elapsed = 0;
        self.elapsed_since_last = 0;
        self.open = false;
    }
}

} // verus!
