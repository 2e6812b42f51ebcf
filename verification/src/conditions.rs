//! The conditions under which a context opens and closes.

use vstd::prelude::*;
use crate::event::Event;
use crate::state::{State, StateModel};

verus! {

/// The views of a sequence of strings.
pub open spec fn texts(strings: Seq<String>) -> Seq<Seq<char>> {
    strings.map_values(|s: String| s@)
}

/// When a context opens and closes. Durations are in milliseconds.
#[derive(Clone, Debug)]
pub struct Conditions {
    /// The context closes when it has been open for this long.
    pub timeout: u64,
    /// The context closes when no event has arrived for this long.
    pub renew_timeout: Option<u64>,
    /// The context closes when it holds this many events.
    pub max_size: Option<usize>,
    /// Only an event that matches the first pattern opens the context.
    pub first_opens: bool,
    /// An event that matches the last pattern closes the context.
    pub last_closes: bool,
    /// The ids of the events that belong to the context; none means all.
    pub patterns: Vec<String>,
}

/// What a `Conditions` holds.
pub struct ConditionsModel {
    pub timeout: nat,
    pub renew_timeout: Option<nat>,
    pub max_size: Option<nat>,
    pub first_opens: bool,
    pub last_closes: bool,
    pub patterns: Seq<Seq<char>>,
}

impl View for Conditions {
    type V = ConditionsModel;

    open spec fn view(&self) -> ConditionsModel {
        ConditionsModel {
            timeout: self.timeout as nat,
            renew_timeout: match self.renew_timeout {
                Some(r) => Some(r as nat),
                None => None,
            },
            max_size: match self.max_size {
                Some(m) => Some(m as nat),
                None => None,
            },
            first_opens: self.first_opens,
            last_closes: self.last_closes,
            patterns: texts(self.patterns@),
        }
    }
}

impl ConditionsModel {
    /// The conditions that only a timeout gives.
    pub open spec fn with_timeout(timeout: nat) -> ConditionsModel {
        ConditionsModel {
            timeout,
            renew_timeout: None,
            max_size: None,
            first_opens: false,
            last_closes: false,
            patterns: Seq::empty(),
        }
    }

    /// Whether an event with the given ids opens a closed context.
    pub open spec fn is_opening(self, ids: Seq<Seq<char>>) -> bool {
        if self.first_opens {
            self.patterns.len() > 0 && ids.contains(self.patterns.first())
        } else {
            true
        }
    }

    pub open spec fn is_max_size_reached<E>(self, state: StateModel<E>) -> bool {
        self.max_size is Some && state.messages.len() >= self.max_size->0
    }

    /// Whether the latest event of the state matches the last pattern.
    pub open spec fn is_closing_message<E: Event>(self, state: StateModel<E>) -> bool {
        &&& self.last_closes
        &&& state.messages.len() > 0
        &&& self.patterns.len() > 0
        &&& state.messages.last().model().ids().contains(self.patterns.last())
    }

    pub open spec fn is_timeout_expired<E>(self, state: StateModel<E>) -> bool {
        state.elapsed >= self.timeout
    }

    pub open spec fn is_renew_timeout_expired<E>(self, state: StateModel<E>) -> bool {
        self.renew_timeout is Some && state.elapsed_since_last >= self.renew_timeout->0
    }

    /// Whether a context in the given state closes now.
    pub open spec fn is_closing<E: Event>(self, state: StateModel<E>) -> bool {
        state.open && (self.is_max_size_reached(state) || self.is_closing_message(state)
            || self.is_timeout_expired(state) || self.is_renew_timeout_expired(state))
    }
}

impl Conditions {
    /// Whether `event` opens a closed context: any event does, unless
    /// `first_opens` asks for one that matches the first pattern.
    pub fn is_opening<E: Event>(&self, event: &E) -> (opening: bool)
        ensures
            opening == self@.is_opening(event.model().ids()),
    {
        if self.first_opens {
            if self.patterns.len() > 0 {
                event.ids().contains(self.patterns[0].as_str())
            } else {
                false
            }
        } else {
            true
        }
    }

    fn is_max_size_reached<E: Event>(&self, state: &State<E>) -> (reached: bool)
        ensures
            reached == self@.is_max_size_reached(state@),
    {
        match self.max_size {
            Some(max_size) => state.messages().len() >= max_size,
            None => false,
        }
    }

    fn is_closing_message<E: Event>(&self, state: &State<E>) -> (closing: bool)
        ensures
            closing == self@.is_closing_message(state@),
    {
        let messages = state.messages();
        if self.last_closes && messages.len() > 0 && self.patterns.len() > 0 {
            let last_message = &messages[messages.len() - 1];
            let last_pattern = &self.patterns[self.patterns.len() - 1];
            last_message.ids().contains(last_pattern.as_str())
        } else {
            false
        }
    }

    fn is_timeout_expired<E: Event>(&self, state: &State<E>) -> (expired: bool)
        ensures
            expired == self@.is_timeout_expired(state@),
    {
        state.elapsed_time() >= self.timeout
    }

    fn is_renew_timeout_expired<E: Event>(&self, state: &State<E>) -> (expired: bool)
        ensures
            expired == self@.is_renew_timeout_expired(state@),
    {
        match self.renew_timeout {
            Some(renew_timeout) => state.elapsed_time_since_last_message() >= renew_timeout,
            None => false,
        }
    }

    /// Whether a context in `state` closes now: it is open, and it is full,
    /// or its latest event matches the last pattern, or a timer has expired.
    pub fn is_closing<E: Event>(&self, state: &State<E>) -> (closing: bool)
        ensures
            closing == self@.is_closing(state@),
    {
        state.is_open() && (self.is_max_size_reached(state) || self.is_closing_message(state)
            || self.is_timeout_expired(state) || self.is_renew_timeout_expired(state))
    }
}

/// Builds `Conditions` step by step, starting from a timeout.
pub struct ConditionsBuilder {
    conditions: Conditions,
}

impl ConditionsBuilder {
    /// What `build` would return now.
    pub closed spec fn model(&self) -> ConditionsModel {
        self.conditions@
    }

    pub fn new(timeout: u64) -> (builder: ConditionsBuilder)
        ensures
            builder.model() == ConditionsModel::with_timeout(timeout as nat),
    {
        let builder = ConditionsBuilder {
            conditions: Conditions {
                timeout,
                renew_timeout: None,
                max_size: None,
                first_opens: false,
                last_closes: false,
                patterns: Vec::new(),
            },
        };
        assert(builder.conditions@.patterns =~= Seq::empty());
        builder
    }

    pub fn renew_timeout(self, timeout: u64) -> (builder: ConditionsBuilder)
        ensures
            builder.model() == (ConditionsModel { renew_timeout: Some(timeout as nat), ..self.model() }),
    {
        let mut conditions = self.conditions;
        conditions.renew_timeout = Some(timeout);
        ConditionsBuilder { conditions }
    }

    pub fn max_size(self, max_size: usize) -> (builder: ConditionsBuilder)
        ensures
            builder.model() == (ConditionsModel { max_size: Some(max_size as nat), ..self.model() }),
    {
        let mut conditions = self.conditions;
        conditions.max_size = Some(max_size);
        ConditionsBuilder { conditions }
    }

    pub fn first_opens(self, first_opens: bool) -> (builder: ConditionsBuilder)
        ensures
            builder.model() == (ConditionsModel { first_opens, ..self.model() }),
    {
        let mut conditions = self.conditions;
        conditions.first_opens = first_opens;
        ConditionsBuilder { conditions }
    }

    pub fn last_closes(self, last_closes: bool) -> (builder: ConditionsBuilder)
        ensures
            builder.model() == (ConditionsModel { last_closes, ..self.model() }),
    {
        let mut conditions = self.conditions;
        conditions.last_closes = last_closes;
        ConditionsBuilder { conditions }
    }

    pub fn patterns(self, patterns: Vec<String>) -> (builder: ConditionsBuilder)
        ensures
            builder.model() == (ConditionsModel { patterns: texts(patterns@), ..self.model() }),
    {
        let mut conditions = self.conditions;
        conditions.patterns = patterns;
        ConditionsBuilder { conditions }
    }

    pub fn build(self) -> (conditions: Conditions)
        ensures
            conditions@ == self.model(),
    {
        self.conditions
    }
}

} // verus!
