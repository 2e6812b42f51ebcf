//! A context with a single state machine.

use vstd::prelude::*;
use std::sync::Arc;
use crate::conditions::texts;
use crate::context::base::{BaseContext, BaseContextModel};
use crate::dispatcher::request::Request;
use crate::dispatcher::{response_models, Response, ResponseModel};
use crate::state::{State, StateModel};
use crate::template::Template;
use crate::timer::TimerEvent;

verus! {

/// What a context holds: its policy and its state.
pub struct LinearContextModel<T: Template> {
    pub base: BaseContextModel<T>,
    pub state: StateModel<T::Event>,
}

impl<T: Template> LinearContextModel<T> {
    /// A closed context with the given policy.
    pub open spec fn fresh(base: BaseContextModel<T>) -> LinearContextModel<T> {
        LinearContextModel { base, state: StateModel::fresh() }
    }

    /// The context after it has handled `event`.
    pub open spec fn after_message(self, event: Arc<T::Event>) -> LinearContextModel<T> {
        LinearContextModel { base: self.base, state: self.base.after_message(self.state, event) }
    }

    /// What the context sends while it handles `event`.
    pub open spec fn message_responses(self, event: Arc<T::Event>) -> Seq<ResponseModel> {
        self.base.message_responses(self.state, event)
    }

    /// The context after it has handled a tick of `millis`.
    pub open spec fn after_timer(self, millis: nat) -> LinearContextModel<T> {
        LinearContextModel { base: self.base, state: self.base.after_timer(self.state, millis) }
    }

    /// What the context sends while it handles a tick of `millis`.
    pub open spec fn timer_responses(self, millis: nat) -> Seq<ResponseModel> {
        self.base.timer_responses(self.state, millis)
    }

    /// The context after it has handled `request`. A request to stop does
    /// not concern it.
    pub open spec fn after_request(self, request: Request<T::Event>) -> LinearContextModel<T> {
        match request {
            Request::Message(event) => self.after_message(event),
            Request::Timer(tick) => self.after_timer(tick.0 as nat),
            Request::Exit => self,
        }
    }

    /// What the context sends while it handles `request`.
    pub open spec fn request_responses(self, request: Request<T::Event>) -> Seq<ResponseModel> {
        match request {
            Request::Message(event) => self.message_responses(event),
            Request::Timer(tick) => self.timer_responses(tick.0 as nat),
            Request::Exit => Seq::empty(),
        }
    }
}

/// A context whose events all go to one state.
pub struct LinearContext<T: Template> {
    base: BaseContext<T>,
    state: State<T::Event>,
}

impl<T: Template> View for LinearContext<T> {
    type V = LinearContextModel<T>;

    closed spec fn view(&self) -> LinearContextModel<T> {
        LinearContextModel { base: self.base@, state: self.state@ }
    }
}

impl<T: Template> LinearContext<T> {
    /// A closed context with the policy `base`.
    pub fn new(base: BaseContext<T>) -> (context: LinearContext<T>)
        ensures
            context@ == LinearContextModel::fresh(base@),
    {
        LinearContext { base, state: State::new() }
    }

    /// Handles a request: a tick or an event.
    pub fn on_event(&mut self, event: Request<T::Event>, responder: &mut Vec<Response<T::Event>>)
        ensures
            final(self)@ == old(self)@.after_request(event),
            response_models(final(responder)@) == response_models(old(responder)@)
                + old(self)@.request_responses(event),
    {
        match event {
            Request::Timer(tick) => self.on_timer(&tick, responder),
            Request::Message(message) => self.on_message(message, responder),
            Request::Exit => {
                assert(response_models(responder@) =~= response_models(old(responder)@)
                    + Seq::<ResponseModel>::empty());
            },
        }
    }

    pub fn on_timer(&mut self, event: &TimerEvent, responder: &mut Vec<Response<T::Event>>)
        ensures
            final(self)@ == old(self)@.after_timer(event.0 as nat),
            response_models(final(responder)@) == response_models(old(responder)@)
                + old(self)@.timer_responses(event.0 as nat),
    {
        self.base.on_timer(event, &mut self.state, responder);
    }

    pub fn on_message(&mut self, event: Arc<T::Event>, responder: &mut Vec<Response<T::Event>>)
        ensures
            final(self)@ == old(self)@.after_message(event),
            response_models(final(responder)@) == response_models(old(responder)@)
                + old(self)@.message_responses(event),
    {
        self.base.on_message(event, &mut self.state, responder);
    }

    pub fn is_open(&self) -> (open: bool)
        ensures
            open == self@.state.open,
    {
        self.state.is_open()
    }

    /// The ids of the events that belong to the context; none means all.
    pub fn patterns(&self) -> (patterns: &[String])
        ensures
            texts(patterns@) == self@.base.patterns(),
    {
        self.base.patterns()
    }

    pub fn uuid(&self) -> (uuid: u128)
        ensures
            uuid == self@.base.uuid,
    {
        self.base.uuid()
    }

    /// The policy of the context.
    pub fn base(&self) -> (base: &BaseContext<T>)
        ensures
            base@ == self@.base,
    {
        &self.base
    }

    /// The state of the context.
    pub fn state(&self) -> (state: &State<T::Event>)
        ensures
            state@ == self@.state,
    {
        &self.state
    }
}

} // verus!
