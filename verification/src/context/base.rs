//! The immutable part of a context, which drives its state.

use vstd::prelude::*;
use std::sync::Arc;
use crate::conditions::{texts, Conditions, ConditionsModel};
use crate::config::action::{action_models, fired, ActionModel, ActionType};
use crate::dispatcher::{response_models, Response, ResponseModel};
use crate::event::Event;
use crate::identifier::{hyphenated, hyphenated_text};
use crate::message::opt_string;
use crate::state::{State, StateModel};
use crate::template::Template;
use crate::timer::TimerEvent;

verus! {

/// What a `BaseContext` holds.
pub struct BaseContextModel<T> {
    pub name: Option<Seq<char>>,
    pub uuid: u128,
    pub conditions: ConditionsModel,
    pub actions: Seq<ActionModel<T>>,
}

impl<T: Template> BaseContextModel<T> {
    /// The ids of the events that belong to the context; none means all.
    pub open spec fn patterns(self) -> Seq<Seq<char>> {
        self.conditions.patterns
    }

    /// The id under which templates know the context: its uuid in
    /// hyphenated form.
    pub open spec fn context_id(self) -> Seq<char> {
        hyphenated_text(self.uuid)
    }

    /// Whether `event` opens the context when it is closed.
    pub open spec fn is_opening(self, event: Arc<T::Event>) -> bool {
        self.conditions.is_opening(event.model().ids())
    }

    /// The state once `event` was taken in: an open state buffers it, a
    /// closed one buffers it and opens if the event is an opening one.
    pub open spec fn accepted(self, state: StateModel<T::Event>, event: Arc<T::Event>)
        -> StateModel<T::Event> {
        if state.open {
            state.with_message(event)
        } else if self.is_opening(event) {
            state.with_message(event).opened()
        } else {
            state
        }
    }

    /// The state after the context has handled `event`.
    pub open spec fn after_message(self, state: StateModel<T::Event>, event: Arc<T::Event>)
        -> StateModel<T::Event> {
        let accepted = self.accepted(state, event);
        if self.conditions.is_closing(accepted) {
            accepted.closed()
        } else {
            accepted
        }
    }

    /// What the open actions send when `event` opens the context. They see
    /// the state with the event already in its buffer.
    pub open spec fn opening_responses(self, state: StateModel<T::Event>, event: Arc<T::Event>)
        -> Seq<ResponseModel> {
        if !state.open && self.is_opening(event) {
            fired(self.actions, true, state.with_message(event).messages, self.context_id())
        } else {
            Seq::empty()
        }
    }

    /// What the close actions send if the context closes in `state`.
    pub open spec fn closing_responses(self, state: StateModel<T::Event>) -> Seq<ResponseModel> {
        if self.conditions.is_closing(state) {
            fired(self.actions, false, state.messages, self.context_id())
        } else {
            Seq::empty()
        }
    }

    /// What the context sends while it handles `event`: the alerts of its
    /// opening, if it opens, then those of its closing, if it closes.
    pub open spec fn message_responses(self, state: StateModel<T::Event>, event: Arc<T::Event>)
        -> Seq<ResponseModel> {
        self.opening_responses(state, event) + self.closing_responses(self.accepted(state, event))
    }

    /// The state once a tick of `millis` was taken in: only an open state
    /// feels it.
    pub open spec fn advanced(self, state: StateModel<T::Event>, millis: nat) -> StateModel<
        T::Event,
    > {
        if state.open {
            state.ticked(millis)
        } else {
            state
        }
    }

    /// The state after the context has handled a tick of `millis`.
    pub open spec fn after_timer(self, state: StateModel<T::Event>, millis: nat) -> StateModel<
        T::Event,
    > {
        let advanced = self.advanced(state, millis);
        if self.conditions.is_closing(advanced) {
            advanced.closed()
        } else {
            advanced
        }
    }

    /// What the context sends while it handles a tick of `millis`.
    pub open spec fn timer_responses(self, state: StateModel<T::Event>, millis: nat) -> Seq<
        ResponseModel,
    > {
        self.closing_responses(self.advanced(state, millis))
    }
}

/// The identity and the policy of a context: what it is called, which
/// events belong to it, when it opens and closes, and what it does then.
pub struct BaseContext<T: Template> {
    name: Option<String>,
    uuid: u128,
    conditions: Conditions,
    actions: Vec<ActionType<T>>,
}

impl<T: Template> View for BaseContext<T> {
    type V = BaseContextModel<T>;

    closed spec fn view(&self) -> BaseContextModel<T> {
        BaseContextModel {
            name: opt_string(self.name),
            uuid: self.uuid,
            conditions: self.conditions@,
            actions: action_models(self.actions@),
        }
    }
}

impl<T: Template> BaseContext<T> {
    pub fn uuid(&self) -> (uuid: u128)
        ensures
            uuid == self@.uuid,
    {
        self.uuid
    }

    pub fn name(&self) -> (name: Option<&String>)
        ensures
            name is Some == self@.name is Some,
            name is Some ==> name->0@ == self@.name->0,
    {
        self.name.as_ref()
    }

    pub fn actions(&self) -> (actions: &[ActionType<T>])
        ensures
            action_models(actions@) == self@.actions,
    {
        self.actions.as_slice()
    }

    pub fn conditions(&self) -> (conditions: &Conditions)
        ensures
            conditions@ == self@.conditions,
    {
        &self.conditions
    }

    /// The ids of the events that belong to the context; none means all.
    pub fn patterns(&self) -> (patterns: &[String])
        ensures
            texts(patterns@) == self@.patterns(),
    {
        self.conditions.patterns.as_slice()
    }

    /// The uuid of the context in hyphenated form.
    pub fn context_id(&self) -> (id: String)
        ensures
            id@ == self@.context_id(),
    {
        hyphenated(self.uuid)
    }

    /// Whether `message` opens the context when it is closed.
    pub fn is_opening(&self, message: &T::Event) -> (opening: bool)
        ensures
            opening == self@.conditions.is_opening(message.model().ids()),
    {
        self.conditions.is_opening(message)
    }

    /// Whether the context closes in `state`.
    pub fn is_closing(&self, state: &State<T::Event>) -> (closing: bool)
        ensures
            closing == self@.conditions.is_closing(state@),
    {
        self.conditions.is_closing(state)
    }

    /// Lets a tick pass: an open state advances its timers, and the
    /// context closes if a closing condition holds then.
    pub fn on_timer(
        &self,
        event: &TimerEvent,
        state: &mut State<T::Event>,
        responder: &mut Vec<Response<T::Event>>,
    )
        ensures
            final(state)@ == self@.after_timer(old(state)@, event.0 as nat),
            response_models(final(responder)@) == response_models(old(responder)@)
                + self@.timer_responses(old(state)@, event.0 as nat),
    {
        if state.is_open() {
            state.update_timers(event);
        }
        if self.is_closing(state) {
            self.close(state, responder);
        } else {
            assert(response_models(responder@) =~= response_models(old(responder)@)
                + Seq::<ResponseModel>::empty());
        }
    }

    /// Takes an event in: an open state buffers it; a closed one buffers it
    /// and opens if the event is an opening one. The context closes if a
    /// closing condition holds then.
    pub fn on_message(
        &self,
        event: Arc<T::Event>,
        state: &mut State<T::Event>,
        responder: &mut Vec<Response<T::Event>>,
    )
        ensures
            final(state)@ == self@.after_message(old(state)@, event),
            response_models(final(responder)@) == response_models(old(responder)@)
                + self@.message_responses(old(state)@, event),
    {
        if state.is_open() {
            state.add_message(event);
            assert(response_models(responder@) =~= response_models(old(responder)@)
                + Seq::<ResponseModel>::empty());
        } else if self.is_opening(&*event) {
            state.add_message(event);
            self.open(state, responder);
        } else {
            assert(response_models(responder@) =~= response_models(old(responder)@)
                + Seq::<ResponseModel>::empty());
        }
        let ghost opened = response_models(responder@);
        if self.is_closing(state) {
            self.close(state, responder);
        } else {
            assert(response_models(responder@) =~= opened + Seq::<ResponseModel>::empty());
        }
        assert(response_models(responder@) =~= response_models(old(responder)@)
            + self@.message_responses(old(state)@, event));
    }

    /// Runs every action for the opening and opens the state.
    fn open(&self, state: &mut State<T::Event>, responder: &mut Vec<Response<T::Event>>)
        requires
            !old(state)@.open,
        ensures
            final(state)@ == old(state)@.opened(),
            response_models(final(responder)@) == response_models(old(responder)@) + fired(
                self@.actions,
                true,
                old(state)@.messages,
                self@.context_id(),
            ),
    {
        self.fire(true, state, responder);
        state.open();
    }

    /// Runs every action for the closing and resets the state.
    fn close(&self, state: &mut State<T::Event>, responder: &mut Vec<Response<T::Event>>)
        ensures
            final(state)@ == old(state)@.closed(),
            response_models(final(responder)@) == response_models(old(responder)@) + fired(
                self@.actions,
                false,
                old(state)@.messages,
                self@.context_id(),
            ),
    {
        self.fire(false, state, responder);
        state.close();
    }

    /// Runs every action once, in order, for one transition.
    fn fire(&self, opened: bool, state: &State<T::Event>, responder: &mut Vec<Response<T::Event>>)
        ensures
            response_models(final(responder)@) == response_models(old(responder)@) + fired(
                self@.actions,
                opened,
                state@.messages,
                self@.context_id(),
            ),
    {
        let ghost actions = self@.actions;
        let ghost before = response_models(responder@);
        let mut i: usize = 0;
        assert(actions.take(0) =~= Seq::empty());
        assert(response_models(responder@) =~= before + Seq::<ResponseModel>::empty());
        while i < self.actions.len()
            invariant
                i <= self.actions.len(),
                actions == self@.actions,
                actions.len() == self.actions.len(),
                response_models(responder@) == before + fired(
                    actions.take(i as int),
                    opened,
                    state@.messages,
                    self@.context_id(),
                ),
            decreases self.actions.len() - i,
        {
            let ghost done = fired(
                actions.take(i as int),
                opened,
                state@.messages,
                self@.context_id(),
            );
            let ghost more = actions.take(i + 1);
            assert(more.drop_last() =~= actions.take(i as int));
            assert(more.last() == self.actions@[i as int]@);
            if opened {
                self.actions[i].on_opened(state, self, responder);
            } else {
                self.actions[i].on_closed(state, self, responder);
            }
            assert(response_models(responder@) =~= before + (done + more.last().emitted(
                opened,
                state@.messages,
                self@.context_id(),
            )));
            i += 1;
        }
        assert(actions.take(i as int) =~= actions);
    }
}

/// Builds a `BaseContext`, starting from its uuid and its conditions.
pub struct BaseContextBuilder<T: Template> {
    name: Option<String>,
    uuid: u128,
    conditions: Conditions,
    actions: Vec<ActionType<T>>,
}

impl<T: Template> BaseContextBuilder<T> {
    /// What `build` would return now.
    pub closed spec fn model(&self) -> BaseContextModel<T> {
        BaseContextModel {
            name: opt_string(self.name),
            uuid: self.uuid,
            conditions: self.conditions@,
            actions: action_models(self.actions@),
        }
    }

    /// A context without a name and without actions.
    pub fn new(uuid: u128, conditions: Conditions) -> (builder: BaseContextBuilder<T>)
        ensures
            builder.model() == (BaseContextModel::<T> {
                name: None,
                uuid,
                conditions: conditions@,
                actions: Seq::empty(),
            }),
    {
        let builder = BaseContextBuilder { name: None, uuid, conditions, actions: Vec::new() };
        assert(builder.model().actions =~= Seq::empty());
        builder
    }

    pub fn name(self, name: Option<String>) -> (builder: BaseContextBuilder<T>)
        ensures
            builder.model() == (BaseContextModel { name: opt_string(name), ..self.model() }),
    {
        let mut builder = self;
        builder.name = name;
        builder
    }

    pub fn actions(self, actions: Vec<ActionType<T>>) -> (builder: BaseContextBuilder<T>)
        ensures
            builder.model() == (BaseContextModel {
                actions: action_models(actions@),
                ..self.model()
            }),
    {
        let mut builder = self;
        builder.actions = actions;
        builder
    }

    /// Sets the ids of the events that belong to the context.
    pub fn patterns(self, patterns: Vec<String>) -> (builder: BaseContextBuilder<T>)
        ensures
            builder.model() == (BaseContextModel {
                conditions: ConditionsModel { patterns: texts(patterns@), ..self.model().conditions },
                ..self.model()
            }),
    {
        let mut builder = self;
        builder.conditions.patterns = patterns;
        builder
    }

    pub fn build(self) -> (context: BaseContext<T>)
        ensures
            context@ == self.model(),
    {
        BaseContext {
            name: self.name,
            uuid: self.uuid,
            conditions: self.conditions,
            actions: self.actions,
        }
    }
}

} // verus!
