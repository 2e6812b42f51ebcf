//! The correlator: the engine as its users see it.
//!
//! A correlator takes events and ticks, lets its contexts handle them at
//! once, and keeps what they emit until the caller collects it.

use vstd::prelude::*;
use std::sync::Arc;
use crate::config::action::message::{Alert, AlertModel, InjectMode};
use crate::config::decode::{DecodeError, DecodeFailure};
use crate::context::context_map::{
    after_message, after_timer, message_responses, timer_responses, ContextMap,
};
use crate::context::linear::LinearContextModel;
use crate::dispatcher::request::Request;
use crate::dispatcher::{response_models, Response, ResponseModel};
use crate::event::Event;
use crate::reactor::Reactor;
use crate::template::{CompileError, Template};
use crate::timer::TimerEvent;

pub mod factory;

verus! {

/// The error of the standard library for input and output.
#[verifier::external_type_specification]
#[verifier::external_body]
pub struct ExIoError(std::io::Error);

/// Why no correlator could be made from a configuration file.
#[derive(Debug)]
pub enum CorrelatorError {
    /// The file could not be read.
    Io(std::io::Error),
    /// The extension of the file name is not UTF-8.
    NotUtf8FileName,
    /// The file name has no extension, or one that names no known format.
    UnsupportedFileExtension,
    /// The file is not a JSON text, or the text is not a configuration.
    SerdeJson(DecodeError),
    /// The file is not a YAML text, or the text is not a configuration.
    SerdeYaml(DecodeError),
    /// A template of the configuration does not compile.
    TemplateCompile(CompileError),
}

/// What a `CorrelatorError` says.
pub enum CorrelatorFailure {
    Io,
    NotUtf8FileName,
    UnsupportedFileExtension,
    SerdeJson(DecodeFailure),
    SerdeYaml(DecodeFailure),
    TemplateCompile(Seq<char>),
}

impl View for CorrelatorError {
    type V = CorrelatorFailure;

    open spec fn view(&self) -> CorrelatorFailure {
        match self {
            CorrelatorError::Io(_) => CorrelatorFailure::Io,
            CorrelatorError::NotUtf8FileName => CorrelatorFailure::NotUtf8FileName,
            CorrelatorError::UnsupportedFileExtension => CorrelatorFailure::UnsupportedFileExtension,
            CorrelatorError::SerdeJson(error) => CorrelatorFailure::SerdeJson(error@),
            CorrelatorError::SerdeYaml(error) => CorrelatorFailure::SerdeYaml(error@),
            CorrelatorError::TemplateCompile(error) => CorrelatorFailure::TemplateCompile(error@),
        }
    }
}

impl From<std::io::Error> for CorrelatorError {
    fn from(error: std::io::Error) -> (wrapped: CorrelatorError) {
        CorrelatorError::Io(error)
    }
}

impl vstd::std_specs::convert::FromSpecImpl<std::io::Error> for CorrelatorError {
    open spec fn obeys_from_spec() -> bool {
        true
    }

    open spec fn from_spec(error: std::io::Error) -> CorrelatorError {
        CorrelatorError::Io(error)
    }
}

impl From<CompileError> for CorrelatorError {
    fn from(error: CompileError) -> (wrapped: CorrelatorError) {
        CorrelatorError::TemplateCompile(error)
    }
}

impl vstd::std_specs::convert::FromSpecImpl<CompileError> for CorrelatorError {
    open spec fn obeys_from_spec() -> bool {
        true
    }

    open spec fn from_spec(error: CompileError) -> CorrelatorError {
        CorrelatorError::TemplateCompile(error)
    }
}

/// An event that was refused because the correlator has stopped.
#[derive(Debug)]
pub struct PushError<E>(pub E);

/// What a `Correlator` holds.
pub struct CorrelatorModel<T: Template> {
    /// The contexts in the order of the configuration.
    pub contexts: Seq<LinearContextModel<T>>,
    /// What the contexts have emitted and the caller has not collected.
    pub responses: Seq<Response<T::Event>>,
    pub stopped: bool,
}

/// The views of a sequence of alerts.
pub open spec fn alert_models<E: Event>(alerts: Seq<Alert<E>>) -> Seq<AlertModel> {
    alerts.map_values(|a: Alert<E>| a@)
}

/// Whether the engine feeds the response back to itself: it is an alert
/// that asks for it.
pub open spec fn is_loopback(response: ResponseModel) -> bool {
    match response {
        ResponseModel::Alert(alert) => alert.inject_mode == InjectMode::Loopback,
        ResponseModel::Exit => false,
    }
}

/// The alerts among the responses that are handed to the caller, in order:
/// all but those that the engine feeds back to itself.
pub open spec fn handed_over(responses: Seq<ResponseModel>) -> Seq<AlertModel>
    decreases responses.len(),
{
    if responses.len() == 0 {
        Seq::empty()
    } else {
        handed_over(responses.drop_last()) + (match responses.last() {
            ResponseModel::Alert(alert) => if alert.inject_mode == InjectMode::Loopback {
                Seq::empty()
            } else {
                seq![alert]
            },
            ResponseModel::Exit => Seq::empty(),
        })
    }
}

/// The event that is fed back for a response.
pub open spec fn loopback_event<E: Event>(response: Response<E>) -> Arc<E> {
    match response {
        Response::Alert(alert) => Arc::new(alert.message),
        Response::Exit => arbitrary(),
    }
}

/// The contexts after the first `count` responses of a batch were handled:
/// the event of each alert that asks for it was delivered as a new event,
/// unless the correlator has stopped.
pub open spec fn contexts_after_handling<T: Template>(
    contexts: Seq<LinearContextModel<T>>,
    batch: Seq<Response<T::Event>>,
    stopped: bool,
    count: nat,
) -> Seq<LinearContextModel<T>>
    decreases count,
{
    if count == 0 {
        contexts
    } else {
        let before = contexts_after_handling(contexts, batch, stopped, (count - 1) as nat);
        let response = batch[count - 1];
        if !stopped && is_loopback(response@) {
            after_message(before, loopback_event(response))
        } else {
            before
        }
    }
}

/// What the contexts emit while the first `count` responses of a batch
/// are handled.
pub open spec fn responses_of_handling<T: Template>(
    contexts: Seq<LinearContextModel<T>>,
    batch: Seq<Response<T::Event>>,
    stopped: bool,
    count: nat,
) -> Seq<ResponseModel>
    decreases count,
{
    if count == 0 {
        Seq::empty()
    } else {
        let before = contexts_after_handling(contexts, batch, stopped, (count - 1) as nat);
        let response = batch[count - 1];
        responses_of_handling(contexts, batch, stopped, (count - 1) as nat) + (if !stopped
            && is_loopback(response@) {
            message_responses(before, loopback_event(response), before.len())
        } else {
            Seq::empty()
        })
    }
}

/// A correlator that has stopped feeds nothing back.
pub proof fn lemma_stopped_handling<T: Template>(
    contexts: Seq<LinearContextModel<T>>,
    batch: Seq<Response<T::Event>>,
    count: nat,
)
    ensures
        contexts_after_handling(contexts, batch, true, count) == contexts,
        responses_of_handling(contexts, batch, true, count) == Seq::<ResponseModel>::empty(),
    decreases count,
{
    if count > 0 {
        lemma_stopped_handling(contexts, batch, (count - 1) as nat);
    }
}

/// The engine with its contexts and the responses that wait for the
/// caller.
pub struct Correlator<T: Template> {
    reactor: Reactor<T>,
    responses: Vec<Response<T::Event>>,
    stopped: bool,
}

impl<T: Template> View for Correlator<T> {
    type V = CorrelatorModel<T>;

    closed spec fn view(&self) -> CorrelatorModel<T> {
        CorrelatorModel {
            contexts: self.reactor@,
            responses: self.responses@,
            stopped: self.stopped,
        }
    }
}

impl<T: Template> Correlator<T> {
    /// Whether the index of the contexts is in order.
    pub closed spec fn wf(&self) -> bool {
        self.reactor.wf()
    }

    /// A running correlator with the given contexts and nothing emitted.
    pub fn new(contexts: ContextMap<T>) -> (correlator: Correlator<T>)
        requires
            contexts.wf(),
        ensures
            correlator.wf(),
            correlator@ == (CorrelatorModel::<T> {
                contexts: contexts@,
                responses: Seq::empty(),
                stopped: false,
            }),
    {
        Correlator { reactor: Reactor::new(contexts), responses: Vec::new(), stopped: false }
    }

    pub fn is_stopped(&self) -> (stopped: bool)
        ensures
            stopped == self@.stopped,
    {
        self.stopped
    }

    /// What was emitted and not collected yet.
    pub fn responses(&self) -> (responses: &Vec<Response<T::Event>>)
        ensures
            responses@ == self@.responses,
    {
        &self.responses
    }

    /// The contexts of the correlator.
    pub fn contexts(&self) -> (contexts: &ContextMap<T>)
        ensures
            contexts@ == self@.contexts,
            contexts.wf() == self.wf(),
    {
        self.reactor.contexts()
    }

    /// Delivers `event` to the contexts that take it. A correlator that
    /// has stopped refuses the event and hands it back.
    pub fn push_message(&mut self, event: T::Event) -> (result: Result<(), PushError<T::Event>>)
        requires
            old(self).wf(),
        ensures
            final(self).wf(),
            old(self)@.stopped ==> result == Err::<(), PushError<T::Event>>(PushError(event))
                && final(self)@ == old(self)@,
            !old(self)@.stopped ==> result is Ok && !final(self)@.stopped && final(self)@.contexts
                == after_message(old(self)@.contexts, Arc::new(event)) && response_models(
                final(self)@.responses,
            ) == response_models(old(self)@.responses) + message_responses(
                old(self)@.contexts,
                Arc::new(event),
                old(self)@.contexts.len(),
            ),
    {
        if self.stopped {
            return Err(PushError(event));
        }
        self.reactor.handle(Request::Message(Arc::new(event)), &mut self.responses);
        Ok(())
    }

    /// Lets a tick pass in every context. A correlator that has stopped
    /// ignores it.
    pub fn tick(&mut self, tick: TimerEvent)
        requires
            old(self).wf(),
        ensures
            final(self).wf(),
            old(self)@.stopped ==> final(self)@ == old(self)@,
            !old(self)@.stopped ==> !final(self)@.stopped && final(self)@.contexts == after_timer(
                old(self)@.contexts,
                tick.0 as nat,
            ) && response_models(final(self)@.responses) == response_models(old(self)@.responses)
                + timer_responses(old(self)@.contexts, tick.0 as nat, old(self)@.contexts.len()),
    {
        if !self.stopped {
            self.reactor.handle(Request::Timer(tick), &mut self.responses);
        }
    }

    /// Collects the responses that wait: an alert that asks to be fed back
    /// is delivered to the contexts as a new event, every other alert is
    /// appended to `sink`. What the contexts emit meanwhile waits for the
    /// next call.
    pub fn handle_events(&mut self, sink: &mut Vec<Alert<T::Event>>)
        requires
            old(self).wf(),
        ensures
            final(self).wf(),
            final(self)@.stopped == old(self)@.stopped,
            final(self)@.contexts == contexts_after_handling(
                old(self)@.contexts,
                old(self)@.responses,
                old(self)@.stopped,
                old(self)@.responses.len(),
            ),
            response_models(final(self)@.responses) == responses_of_handling(
                old(self)@.contexts,
                old(self)@.responses,
                old(self)@.stopped,
                old(self)@.responses.len(),
            ),
            alert_models(final(sink)@) == alert_models(old(sink)@) + handed_over(
                response_models(old(self)@.responses),
            ),
    {
        let mut batch: Vec<Response<T::Event>> = Vec::new();
        std::mem::swap(&mut batch, &mut self.responses);
        let ghost contexts = self@.contexts;
        let ghost batch_before = batch@;
        let ghost models = response_models(batch_before);
        let ghost collected = alert_models(sink@);
        let ghost stopped = self.stopped;
        let mut i: usize = 0;
        proof {
            assert(models.take(0) =~= Seq::empty());
            assert(alert_models(sink@) =~= collected + Seq::<AlertModel>::empty());
            assert(response_models(self.responses@) =~= Seq::<ResponseModel>::empty());
        }
        while i < batch.len()
            invariant
                i <= batch.len(),
                batch@.len() == batch_before.len(),
                forall|j: int| i <= j < batch_before.len() ==> batch@[j] == batch_before[j],
                models == response_models(batch_before),
                self.wf(),
                self.stopped == stopped,
                self@.contexts == contexts_after_handling(contexts, batch_before, stopped, i as nat),
                response_models(self@.responses) == responses_of_handling(
                    contexts,
                    batch_before,
                    stopped,
                    i as nat,
                ),
                alert_models(sink@) == collected + handed_over(models.take(i as int)),
            decreases batch.len() - i,
        {
            let ghost done = handed_over(models.take(i as int));
            let ghost sent = response_models(self@.responses);
            proof {
                assert(models.take(i + 1).drop_last() =~= models.take(i as int));
                assert(models.take(i + 1).last() == batch_before[i as int]@);
            }
            let mut response: Response<T::Event> = Response::Exit;
            std::mem::swap(&mut response, &mut batch[i]);
            assert(response == batch_before[i as int]);
            match response {
                Response::Alert(alert) => {
                    if alert.inject_mode == InjectMode::Loopback {
                        if !self.stopped {
                            let event = Arc::new(alert.message);
                            assert(event == loopback_event(batch_before[i as int]));
                            self.reactor.handle(Request::Message(event), &mut self.responses);
                        } else {
                            assert(response_models(self@.responses) =~= sent
                                + Seq::<ResponseModel>::empty());
                        }
                        assert(alert_models(sink@) =~= collected + (done
                            + Seq::<AlertModel>::empty()));
                    } else {
                        let ghost held = sink@;
                        sink.push(alert);
                        assert(alert_models(sink@) =~= alert_models(held).push(alert@));
                        assert(alert_models(sink@) =~= collected + (done + seq![alert@]));
                        assert(response_models(self@.responses) =~= sent
                            + Seq::<ResponseModel>::empty());
                    }
                },
                Response::Exit => {
                    assert(alert_models(sink@) =~= collected + (done + Seq::<AlertModel>::empty()));
                    assert(response_models(self@.responses) =~= sent
                        + Seq::<ResponseModel>::empty());
                },
            }
            i += 1;
        }
        assert(models.take(i as int) =~= models);
    }

    /// Stops the correlator: every alert that waits is handed to `sink`,
    /// but for those that ask to be fed back, which are dropped, and
    /// nothing is left waiting. A stopped correlator takes no further
    /// event.
    pub fn stop(&mut self, sink: &mut Vec<Alert<T::Event>>)
        requires
            old(self).wf(),
        ensures
            final(self).wf(),
            final(self)@.stopped,
            final(self)@.contexts == old(self)@.contexts,
            final(self)@.responses.len() == 0,
            alert_models(final(sink)@) == alert_models(old(sink)@) + handed_over(
                response_models(old(self)@.responses),
            ),
    {
        let ghost waiting = response_models(self@.responses);
        if !self.stopped {
            self.reactor.handle(Request::Exit, &mut self.responses);
            self.stopped = true;
            proof {
                let now = response_models(self@.responses);
                assert(now =~= waiting.push(ResponseModel::Exit));
                assert(now.drop_last() =~= waiting);
                assert(handed_over(now) =~= handed_over(waiting));
            }
        }
        proof {
            lemma_stopped_handling(self@.contexts, self@.responses, self@.responses.len());
        }
        self.handle_events(sink);
        assert(response_models(self@.responses).len() == 0);
    }
}

} // verus!
