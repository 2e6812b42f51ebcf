//! Contexts: the state machines that group related events.

use vstd::prelude::*;
use std::sync::Arc;
use crate::conditions::texts;
use crate::context::linear::{LinearContext, LinearContextModel};
use crate::dispatcher::request::Request;
use crate::dispatcher::{response_models, Response};
use crate::template::Template;
use crate::timer::TimerEvent;

pub mod base;
pub mod context_map;
pub mod linear;

verus! {

/// A context of one of the supported kinds.
pub enum Context<T: Template> {
    Linear(LinearContext<T>),
}

impl<T: Template> View for Context<T> {
    type V = LinearContextModel<T>;

    open spec fn view(&self) -> LinearContextModel<T> {
        match self {
            Context::Linear(context) => context@,
        }
    }
}

impl<T: Template> Context<T> {
    /// Handles a request: a tick or an event.
    pub fn on_event(&mut self, event: Request<T::Event>, responder: &mut Vec<Response<T::Event>>)
        ensures
            final(self)@ == old(self)@.after_request(event),
            response_models(final(responder)@) == response_models(old(responder)@)
                + old(self)@.request_responses(event),
    {
        match self {
            Context::Linear(context) => context.on_event(event, responder),
        }
    }

    pub fn on_timer(&mut self, event: &TimerEvent, responder: &mut Vec<Response<T::Event>>)
        ensures
            final(self)@ == old(self)@.after_timer(event.0 as nat),
            response_models(final(responder)@) == response_models(old(responder)@)
                + old(self)@.timer_responses(event.0 as nat),
    {
        match self {
            Context::Linear(context) => context.on_timer(event, responder),
        }
    }

    pub fn on_message(&mut self, event: Arc<T::Event>, responder: &mut Vec<Response<T::Event>>)
        ensures
            final(self)@ == old(self)@.after_message(event),
            response_models(final(responder)@) == response_models(old(responder)@)
                + old(self)@.message_responses(event),
    {
        match self {
            Context::Linear(context) => context.on_message(event, responder),
        }
    }

    pub fn is_open(&self) -> (open: bool)
        ensures
            open == self@.state.open,
    {
        match self {
            Context::Linear(context) => context.is_open(),
        }
    }

    /// The ids of the events that belong to the context; none means all.
    pub fn patterns(&self) -> (patterns: &[String])
        ensures
            texts(patterns@) == self@.base.patterns(),
    {
        match self {
            Context::Linear(context) => context.patterns(),
        }
    }
}

} // verus!
