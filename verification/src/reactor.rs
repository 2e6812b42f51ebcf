//! The reactor: it serves one request at a time and sends what the
//! contexts emit.

use vstd::prelude::*;
use std::sync::Arc;
use crate::context::context_map::{
    after_message, after_timer, message_responses, timer_responses, ContextMap,
};
use crate::context::linear::LinearContextModel;
use crate::dispatcher::request::Request;
use crate::dispatcher::{response_models, Response, ResponseModel};
use crate::template::Template;

verus! {

/// The contexts after the reactor has served `request`.
pub open spec fn after_request<T: Template>(
    contexts: Seq<LinearContextModel<T>>,
    request: Request<T::Event>,
) -> Seq<LinearContextModel<T>> {
    match request {
        Request::Message(event) => after_message(contexts, event),
        Request::Timer(tick) => after_timer(contexts, tick.0 as nat),
        Request::Exit => contexts,
    }
}

/// What the reactor sends while it serves `request`: what the contexts
/// emit for an event or a tick, and the notice that it stops for a request
/// to stop.
pub open spec fn request_responses<T: Template>(
    contexts: Seq<LinearContextModel<T>>,
    request: Request<T::Event>,
) -> Seq<ResponseModel> {
    match request {
        Request::Message(event) => message_responses(contexts, event, contexts.len()),
        Request::Timer(tick) => timer_responses(contexts, tick.0 as nat, contexts.len()),
        Request::Exit => seq![ResponseModel::Exit],
    }
}

/// Serves requests on the contexts that it owns.
pub struct Reactor<T: Template> {
    contexts: ContextMap<T>,
}

impl<T: Template> View for Reactor<T> {
    type V = Seq<LinearContextModel<T>>;

    closed spec fn view(&self) -> Seq<LinearContextModel<T>> {
        self.contexts@
    }
}

impl<T: Template> Reactor<T> {
    /// Whether the index of the contexts is in order.
    pub closed spec fn wf(&self) -> bool {
        self.contexts.wf()
    }

    pub fn new(contexts: ContextMap<T>) -> (reactor: Reactor<T>)
        requires
            contexts.wf(),
        ensures
            reactor.wf(),
            reactor@ == contexts@,
    {
        Reactor { contexts }
    }

    /// The contexts that the reactor owns.
    pub fn contexts(&self) -> (contexts: &ContextMap<T>)
        ensures
            contexts@ == self@,
            contexts.wf() == self.wf(),
    {
        &self.contexts
    }

    /// Serves one request: an event goes to the contexts that take it, a
    /// tick to every context, and a request to stop is answered with the
    /// notice that the reactor stops. Returns whether the reactor goes on.
    pub fn handle(&mut self, request: Request<T::Event>, responder: &mut Vec<Response<T::Event>>)
        -> (running: bool)
        requires
            old(self).wf(),
        ensures
            final(self).wf(),
            final(self)@ == after_request(old(self)@, request),
            response_models(final(responder)@) == response_models(old(responder)@)
                + request_responses(old(self)@, request),
            running == !(request is Exit),
    {
        match request {
            Request::Message(event) => {
                self.contexts.on_message(event, responder);
                true
            },
            Request::Timer(tick) => {
                self.contexts.on_timer(&tick, responder);
                true
            },
            Request::Exit => {
                responder.push(Response::Exit);
                assert(response_models(responder@) =~= response_models(old(responder)@)
                    + seq![ResponseModel::Exit]);
                false
            },
        }
    }
}

} // verus!
