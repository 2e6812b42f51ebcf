//! The built-in action: emitting an alert.

use vstd::prelude::*;
use std::sync::Arc;
use crate::config::action::ExecCondition;
use crate::context::base::BaseContext;
use crate::dispatcher::{response_models, Response, ResponseModel};
use crate::event::{Event, EventModel};
use crate::state::State;
use crate::message::opt_string;
use crate::template::{
    compile_string, string_compiled, string_failure, CompileError, TemplatableModel,
    TemplatableString, Template, TemplateFactory,
};

pub mod builder;

pub use self::builder::MessageActionBuilder;

verus! {

/// How the host treats an alert: it writes it to its log, forwards it
/// downstream, or feeds it back to the engine as a new event.
#[derive(Clone, Copy, Debug, PartialEq, Eq, Structural)]
pub enum InjectMode {
    Log,
    Forward,
    Loopback,
}

impl Default for InjectMode {
    fn default() -> (mode: InjectMode)
        ensures
            mode == InjectMode::Log,
    {
        InjectMode::Log
    }
}

/// An event that an action has synthesized, with the way to deliver it.
#[derive(Clone, Debug)]
pub struct Alert<E: Event> {
    pub message: E,
    pub inject_mode: InjectMode,
}

/// What an `Alert` holds.
#[verifier::ext_equal]
pub struct AlertModel {
    pub event: EventModel,
    pub inject_mode: InjectMode,
}

impl<E: Event> View for Alert<E> {
    type V = AlertModel;

    open spec fn view(&self) -> AlertModel {
        AlertModel { event: self.message.model(), inject_mode: self.inject_mode }
    }
}

/// The views of a list of keys with their strings.
pub open spec fn value_models<T: Template>(values: Seq<(String, TemplatableString<T>)>) -> Seq<
    (Seq<char>, TemplatableModel<T>),
> {
    values.map_values(|pair: (String, TemplatableString<T>)| (pair.0@, pair.1@))
}

/// The views of a list of keys with their texts.
pub open spec fn pair_models(pairs: Seq<(String, String)>) -> Seq<(Seq<char>, Seq<char>)> {
    pairs.map_values(|pair: (String, String)| (pair.0@, pair.1@))
}

/// Every value rendered for a context, in order, or `None` where one of
/// them cannot be formatted.
pub open spec fn rendered_values<T: Template>(
    values: Seq<(Seq<char>, TemplatableModel<T>)>,
    messages: Seq<Arc<T::Event>>,
    context_id: Seq<char>,
) -> Option<Seq<(Seq<char>, Seq<char>)>>
    decreases values.len(),
{
    if values.len() == 0 {
        Some(Seq::empty())
    } else {
        match (
            rendered_values(values.drop_last(), messages, context_id),
            values.last().1.rendered(messages, context_id),
        ) {
            (Some(front), Some(text)) => Some(front.push((values.last().0, text))),
            _ => None,
        }
    }
}

/// The event after each pair was set on it, in order.
pub open spec fn event_with_values(event: EventModel, pairs: Seq<(Seq<char>, Seq<char>)>)
    -> EventModel
    decreases pairs.len(),
{
    if pairs.len() == 0 {
        event
    } else {
        event_with_values(event, pairs.drop_last()).with_value(pairs.last().0, pairs.last().1)
    }
}

/// What a `MessageAction` holds.
pub struct MessageActionModel<T> {
    pub uuid: Seq<char>,
    pub name: Option<Seq<char>>,
    pub message: TemplatableModel<T>,
    pub values: Seq<(Seq<char>, TemplatableModel<T>)>,
    pub when: ExecCondition,
    pub inject_mode: InjectMode,
}

impl<T: Template> MessageActionModel<T> {
    /// Whether the action runs when its context opens (`opened`) or closes.
    pub open spec fn runs_on(self, opened: bool) -> bool {
        if opened {
            self.when.on_opened
        } else {
            self.when.on_closed
        }
    }

    /// What the action sends on a transition of its context: its alert
    /// where it runs on that transition and the alert can be formatted,
    /// nothing otherwise.
    pub open spec fn emitted(self, opened: bool, messages: Seq<Arc<T::Event>>, context_id: Seq<char>)
        -> Seq<ResponseModel> {
        if self.runs_on(opened) {
            match self.alert(messages, context_id) {
                Some(alert) => seq![ResponseModel::Alert(alert)],
                None => Seq::empty(),
            }
        } else {
            Seq::empty()
        }
    }

    /// The alert that the action builds from a formatted message and
    /// formatted values: an event with the action's uuid and name, the
    /// message, and each value under its key.
    pub open spec fn alert_with(self, message: Seq<char>, pairs: Seq<(Seq<char>, Seq<char>)>)
        -> AlertModel {
        AlertModel {
            event: event_with_values(EventModel::fresh(self.uuid, message), pairs).with_name(
                self.name,
            ),
            inject_mode: self.inject_mode,
        }
    }

    /// The alert that the action emits for a context with the given events
    /// and id, or `None` where its message or one of its values cannot be
    /// formatted.
    pub open spec fn alert(self, messages: Seq<Arc<T::Event>>, context_id: Seq<char>) -> Option<
        AlertModel,
    > {
        match (
            self.message.rendered(messages, context_id),
            rendered_values(self.values, messages, context_id),
        ) {
            (Some(message), Some(pairs)) => Some(self.alert_with(message, pairs)),
            _ => None,
        }
    }
}

/// An action that emits an alert: a new event whose message and fields are
/// formatted from the events of the context.
pub struct MessageAction<T: Template> {
    pub(crate) uuid: String,
    pub(crate) name: Option<String>,
    pub(crate) message: TemplatableString<T>,
    pub(crate) values: Vec<(String, TemplatableString<T>)>,
    pub(crate) when: ExecCondition,
    pub(crate) inject_mode: InjectMode,
}

impl<T: Template> View for MessageAction<T> {
    type V = MessageActionModel<T>;

    closed spec fn view(&self) -> MessageActionModel<T> {
        MessageActionModel {
            uuid: self.uuid@,
            name: opt_string(self.name),
            message: self.message@,
            values: value_models(self.values@),
            when: self.when,
            inject_mode: self.inject_mode,
        }
    }
}

impl<T: Template> MessageAction<T> {
    pub fn uuid(&self) -> (uuid: &String)
        ensures
            uuid@ == self@.uuid,
    {
        &self.uuid
    }

    pub fn name(&self) -> (name: Option<&String>)
        ensures
            name is Some == self@.name is Some,
            name is Some ==> name->0@ == self@.name->0,
    {
        self.name.as_ref()
    }

    /// The source of the message, as long as it has not been compiled.
    pub fn message(&self) -> (message: Option<&str>)
        ensures
            match self@.message {
                TemplatableModel::Literal(text) => message is Some && message->0@ == text,
                TemplatableModel::Template(_) => message is None,
            },
    {
        match &self.message {
            TemplatableString::Literal(literal) => Some(literal.as_str()),
            TemplatableString::Template(_) => None,
        }
    }

    /// The fields of the alert, each under its key, in the order in which
    /// they are set.
    pub fn values(&self) -> (values: &Vec<(String, TemplatableString<T>)>)
        ensures
            value_models(values@) == self@.values,
    {
        &self.values
    }

    pub fn when(&self) -> (when: &ExecCondition)
        ensures
            *when == self@.when,
    {
        &self.when
    }

    pub fn inject_mode(&self) -> (mode: &InjectMode)
        ensures
            *mode == self@.inject_mode,
    {
        &self.inject_mode
    }

    /// Formats every value for a context, or returns `None` where one
    /// cannot be formatted.
    fn render_values(&self, messages: &[Arc<T::Event>], context_id: &str) -> (pairs: Option<
        Vec<(String, String)>,
    >)
        ensures
            pairs is Some == rendered_values(self@.values, messages@, context_id@) is Some,
            pairs is Some ==> pair_models(pairs->0@) == rendered_values(
                self@.values,
                messages@,
                context_id@,
            )->0,
    {
        let mut pairs: Vec<(String, String)> = Vec::new();
        let mut i: usize = 0;
        let ghost values = self@.values;
        assert(values.take(0) =~= Seq::empty());
        assert(pair_models(pairs@) =~= Seq::empty());
        while i < self.values.len()
            invariant
                i <= self.values.len(),
                values == self@.values,
                values.len() == self.values.len(),
                rendered_values(values.take(i as int), messages@, context_id@) == Some(
                    pair_models(pairs@),
                ),
            decreases self.values.len() - i,
        {
            let ghost front = values.take(i as int);
            let ghost more = values.take(i + 1);
            assert(more.drop_last() =~= front);
            assert(more.last() == values[i as int]);
            assert(values[i as int] == (self.values@[i as int].0@, self.values@[i as int].1@));
            match self.values[i].1.render(messages, context_id) {
                Some(text) => {
                    let ghost before = pairs@;
                    pairs.push((self.values[i].0.clone(), text));
                    assert(pair_models(pairs@) =~= pair_models(before).push(
                        (values[i as int].0, text@),
                    ));
                },
                None => {
                    proof {
                        lemma_rendered_values_fails(values, messages@, context_id@, i as int);
                    }
                    return None;
                },
            }
            i += 1;
        }
        assert(values.take(i as int) =~= values);
        Some(pairs)
    }

    /// Builds the alert from a formatted message and formatted values.
    pub fn alert_with(&self, message: &str, pairs: &Vec<(String, String)>) -> (alert: Alert<
        T::Event,
    >)
        ensures
            alert@ == self@.alert_with(message@, pair_models(pairs@)),
    {
        let mut event = T::Event::new(self.uuid.as_str(), message);
        let ghost fresh = event.model();
        let ghost models = pair_models(pairs@);
        let mut i: usize = 0;
        assert(models.take(0) =~= Seq::empty());
        while i < pairs.len()
            invariant
                i <= pairs.len(),
                models == pair_models(pairs@),
                event.model() == event_with_values(fresh, models.take(i as int)),
            decreases pairs.len() - i,
        {
            let ghost more = models.take(i + 1);
            assert(more.drop_last() =~= models.take(i as int));
            assert(more.last() == (pairs@[i as int].0@, pairs@[i as int].1@));
            event.set(pairs[i].0.as_str(), pairs[i].1.as_str());
            i += 1;
        }
        assert(models.take(i as int) =~= models);
        let name: Option<&str> = match &self.name {
            Some(n) => Some(n.as_str()),
            None => None,
        };
        event.set_name(name);
        Alert { message: event, inject_mode: self.inject_mode }
    }

    /// Formats the message and the values for a context and builds the
    /// alert. Returns `None`, and so drops the alert, where a template
    /// cannot be formatted.
    pub fn execute(&self, messages: &[Arc<T::Event>], context_id: &str) -> (alert: Option<
        Alert<T::Event>,
    >)
        ensures
            alert is Some == self@.alert(messages@, context_id@) is Some,
            alert is Some ==> alert->0@ == self@.alert(messages@, context_id@)->0,
    {
        match self.message.render(messages, context_id) {
            Some(message) => match self.render_values(messages, context_id) {
                Some(pairs) => Some(self.alert_with(message.as_str(), &pairs)),
                None => None,
            },
            None => None,
        }
    }
}

impl<T: Template> MessageAction<T> {
    /// Executes the action and sends what it built.
    fn send(
        &self,
        state: &State<T::Event>,
        context: &BaseContext<T>,
        responder: &mut Vec<Response<T::Event>>,
    )
        ensures
            response_models(final(responder)@) == response_models(old(responder)@) + (match self@.alert(
                state@.messages,
                context@.context_id(),
            ) {
                Some(alert) => seq![ResponseModel::Alert(alert)],
                None => Seq::empty(),
            }),
    {
        let context_id = context.context_id();
        match self.execute(state.messages().as_slice(), context_id.as_str()) {
            Some(alert) => {
                responder.push(Response::Alert(alert));
                assert(response_models(responder@) =~= response_models(old(responder)@)
                    + seq![ResponseModel::Alert(alert@)]);
            },
            None => {
                assert(response_models(responder@) =~= response_models(old(responder)@)
                    + Seq::<ResponseModel>::empty());
            },
        }
    }

    /// Emits the alert when the context opens, if the action runs then.
    pub fn on_opened(
        &self,
        state: &State<T::Event>,
        context: &BaseContext<T>,
        responder: &mut Vec<Response<T::Event>>,
    )
        ensures
            response_models(final(responder)@) == response_models(old(responder)@) + self@.emitted(
                true,
                state@.messages,
                context@.context_id(),
            ),
    {
        if self.when.on_opened {
            self.send(state, context, responder);
        } else {
            assert(response_models(responder@) =~= response_models(old(responder)@)
                + Seq::<ResponseModel>::empty());
        }
    }

    /// Emits the alert when the context closes, if the action runs then.
    pub fn on_closed(
        &self,
        state: &State<T::Event>,
        context: &BaseContext<T>,
        responder: &mut Vec<Response<T::Event>>,
    )
        ensures
            response_models(final(responder)@) == response_models(old(responder)@) + self@.emitted(
                false,
                state@.messages,
                context@.context_id(),
            ),
    {
        if self.when.on_closed {
            self.send(state, context, responder);
        } else {
            assert(response_models(responder@) =~= response_models(old(responder)@)
                + Seq::<ResponseModel>::empty());
        }
    }
}

/// Where one value cannot be formatted, the values as a whole cannot.
pub proof fn lemma_rendered_values_fails<T: Template>(
    values: Seq<(Seq<char>, TemplatableModel<T>)>,
    messages: Seq<Arc<T::Event>>,
    context_id: Seq<char>,
    at: int,
)
    requires
        0 <= at < values.len(),
        values[at].1.rendered(messages, context_id) is None,
    ensures
        rendered_values(values, messages, context_id) is None,
    decreases values.len(),
{
    if at < values.len() - 1 {
        lemma_rendered_values_fails(values.drop_last(), messages, context_id, at);
    }
}

/// The error of the first value that does not compile.
pub open spec fn values_failure<F: TemplateFactory>(
    factory: F,
    values: Seq<(Seq<char>, TemplatableModel<F::Template>)>,
) -> Option<Seq<char>>
    decreases values.len(),
{
    if values.len() == 0 {
        None
    } else {
        match values_failure(factory, values.drop_last()) {
            Some(error) => Some(error),
            None => string_failure(factory, values.last().1),
        }
    }
}

/// Whether `after` holds the values of `before` compiled, each under its
/// key.
pub open spec fn values_compiled<F: TemplateFactory>(
    factory: F,
    before: Seq<(Seq<char>, TemplatableModel<F::Template>)>,
    after: Seq<(Seq<char>, TemplatableModel<F::Template>)>,
) -> bool {
    &&& after.len() == before.len()
    &&& forall|i: int|
        0 <= i < before.len() ==> (#[trigger] after[i]).0 == before[i].0 && string_compiled(
            factory,
            before[i].1,
            after[i].1,
        )
}

/// The error of the first string of the action that does not compile: the
/// message comes first, then the values in their order.
pub open spec fn message_action_failure<F: TemplateFactory>(
    factory: F,
    action: MessageActionModel<F::Template>,
) -> Option<Seq<char>> {
    match string_failure(factory, action.message) {
        Some(error) => Some(error),
        None => values_failure(factory, action.values),
    }
}

/// Whether `after` is the action `before` with its strings compiled.
pub open spec fn message_action_compiled<F: TemplateFactory>(
    factory: F,
    before: MessageActionModel<F::Template>,
    after: MessageActionModel<F::Template>,
) -> bool {
    &&& after.uuid == before.uuid
    &&& after.name == before.name
    &&& after.when == before.when
    &&& after.inject_mode == before.inject_mode
    &&& string_compiled(factory, before.message, after.message)
    &&& values_compiled(factory, before.values, after.values)
}

/// The first value that does not compile comes before the end of every
/// longer list.
pub proof fn lemma_values_failure_stays<F: TemplateFactory>(
    factory: F,
    values: Seq<(Seq<char>, TemplatableModel<F::Template>)>,
    count: int,
)
    requires
        0 <= count <= values.len(),
        values_failure(factory, values.take(count)) is Some,
    ensures
        values_failure(factory, values) == values_failure(factory, values.take(count)),
    decreases values.len(),
{
    if count < values.len() {
        assert(values.drop_last().take(count) =~= values.take(count));
        lemma_values_failure_stays(factory, values.drop_last(), count);
    } else {
        assert(values.take(count) =~= values);
    }
}

/// Compiles every value.
fn compile_values<F: TemplateFactory>(
    factory: &F,
    values: Vec<(String, TemplatableString<F::Template>)>,
) -> (result: Result<Vec<(String, TemplatableString<F::Template>)>, CompileError>)
    ensures
        result is Ok == values_failure(*factory, value_models(values@)) is None,
        result is Ok ==> values_compiled(
            *factory,
            value_models(values@),
            value_models(result->Ok_0@),
        ),
        result is Err ==> Some(result->Err_0@) == values_failure(*factory, value_models(values@)),
{
    let ghost before = value_models(values@);
    let mut compiled: Vec<(String, TemplatableString<F::Template>)> = Vec::new();
    assert(before.take(0) =~= Seq::empty());
    for pair in iter: values
        invariant
            before == value_models(iter.seq()),
            values_failure(*factory, before.take(iter.index() as int)) is None,
            values_compiled(
                *factory,
                before.take(iter.index() as int),
                value_models(compiled@),
            ),
    {
        let ghost at = iter.index() as int;
        let ghost done = value_models(compiled@);
        proof {
            assert(pair == iter.seq()[at]);
            assert(before[at] == (pair.0@, pair.1@));
            assert(before.take(at + 1).drop_last() =~= before.take(at));
            assert(before.take(at + 1).last() == before[at]);
        }
        match compile_string(factory, pair.1) {
            Ok(string) => {
                compiled.push((pair.0, string));
                proof {
                    let now = value_models(compiled@);
                    assert(now =~= done.push((pair.0@, string@)));
                    assert forall|i: int| 0 <= i < at + 1 implies (#[trigger] now[i]).0
                        == before.take(at + 1)[i].0 && string_compiled(
                        *factory,
                        before.take(at + 1)[i].1,
                        now[i].1,
                    ) by {
                        if i < at {
                            assert(now[i] == done[i]);
                            assert(before.take(at + 1)[i] == before.take(at)[i]);
                        }
                    }
                }
            },
            Err(error) => {
                proof {
                    lemma_values_failure_stays(*factory, before, at + 1);
                }
                return Err(error);
            },
        }
    }
    assert(before.take(before.len() as int) =~= before);
    Ok(compiled)
}

impl<T: Template> MessageAction<T> {
    /// Compiles the message and every value of the action with `factory`.
    /// The first string that does not compile ends it with its error.
    pub fn compile<F: TemplateFactory<Template = T>>(self, factory: &F) -> (result: Result<
        MessageAction<T>,
        CompileError,
    >)
        ensures
            result is Ok == message_action_failure(*factory, self@) is None,
            result is Ok ==> message_action_compiled(*factory, self@, result->Ok_0@),
            result is Err ==> Some(result->Err_0@) == message_action_failure(*factory, self@),
    {
        let message = match compile_string(factory, self.message) {
            Ok(message) => message,
            Err(error) => {
                return Err(error);
            },
        };
        let values = match compile_values(factory, self.values) {
            Ok(values) => values,
            Err(error) => {
                return Err(error);
            },
        };
        Ok(
            MessageAction {
                uuid: self.uuid,
                name: self.name,
                message,
                values,
                when: self.when,
                inject_mode: self.inject_mode,
            },
        )
    }
}

} // verus!
