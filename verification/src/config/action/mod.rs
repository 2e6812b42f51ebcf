//! The actions that a context runs when it opens and when it closes.

use vstd::prelude::*;
use std::sync::Arc;
use crate::config::action::message::{
    message_action_compiled, message_action_failure, MessageAction, MessageActionModel,
};
use crate::context::base::BaseContext;
use crate::dispatcher::{response_models, Response, ResponseModel};
use crate::state::State;
use crate::template::{CompileError, Template, TemplateFactory};

pub mod message;

verus! {

/// On which transitions of its context an action runs.
#[derive(Clone, Copy, Debug, PartialEq, Eq, Structural)]
pub struct ExecCondition {
    pub on_opened: bool,
    pub on_closed: bool,
}

impl ExecCondition {
    /// The condition of an action that says nothing of when it runs: it
    /// runs on no transition.
    pub open spec fn none() -> ExecCondition {
        ExecCondition { on_opened: false, on_closed: false }
    }

    /// The default condition.
    pub fn new() -> (condition: ExecCondition)
        ensures
            condition == ExecCondition::none(),
    {
        ExecCondition { on_opened: false, on_closed: false }
    }
}

impl Default for ExecCondition {
    fn default() -> (condition: ExecCondition)
        ensures
            condition == ExecCondition::none(),
    {
        ExecCondition::new()
    }
}

/// The kinds of action that a configuration can name.
pub enum ActionType<T: Template> {
    Message(MessageAction<T>),
}

/// What an `ActionType` holds.
pub enum ActionModel<T> {
    Message(MessageActionModel<T>),
}

impl<T: Template> View for ActionType<T> {
    type V = ActionModel<T>;

    open spec fn view(&self) -> ActionModel<T> {
        match self {
            ActionType::Message(action) => ActionModel::Message(action@),
        }
    }
}

/// The views of a sequence of actions.
pub open spec fn action_models<T: Template>(actions: Seq<ActionType<T>>) -> Seq<ActionModel<T>> {
    actions.map_values(|a: ActionType<T>| a@)
}

impl<T: Template> ActionModel<T> {
    /// What the action sends when its context makes a transition: opens if
    /// `opened` holds, closes if not.
    pub open spec fn emitted(self, opened: bool, messages: Seq<Arc<T::Event>>, context_id: Seq<char>)
        -> Seq<ResponseModel> {
        match self {
            ActionModel::Message(action) => action.emitted(opened, messages, context_id),
        }
    }
}

/// What the actions of a context send on one transition: every action is
/// run once, in the order of the configuration.
pub open spec fn fired<T: Template>(
    actions: Seq<ActionModel<T>>,
    opened: bool,
    messages: Seq<Arc<T::Event>>,
    context_id: Seq<char>,
) -> Seq<ResponseModel>
    decreases actions.len(),
{
    if actions.len() == 0 {
        Seq::empty()
    } else {
        fired(actions.drop_last(), opened, messages, context_id) + actions.last().emitted(
            opened,
            messages,
            context_id,
        )
    }
}

impl<T: Template> ActionType<T> {
    /// Runs the action for a context that opens.
    pub fn on_opened(
        &self,
        state: &State<T::Event>,
        context: &BaseContext<T>,
        responder: &mut Vec<Response<T::Event>>,
    )
        ensures
            response_models(final(responder)@) == response_models(old(responder)@) + self@.emitted(
                true,
                state@.messages,
                context@.context_id(),
            ),
    {
        match self {
            ActionType::Message(action) => action.on_opened(state, context, responder),
        }
    }

    /// Runs the action for a context that closes.
    pub fn on_closed(
        &self,
        state: &State<T::Event>,
        context: &BaseContext<T>,
        responder: &mut Vec<Response<T::Event>>,
    )
        ensures
            response_models(final(responder)@) == response_models(old(responder)@) + self@.emitted(
                false,
                state@.messages,
                context@.context_id(),
            ),
    {
        match self {
            ActionType::Message(action) => action.on_closed(state, context, responder),
        }
    }
}

impl<T: Template> From<MessageAction<T>> for ActionType<T> {
    fn from(action: MessageAction<T>) -> (wrapped: ActionType<T>) {
        ActionType::Message(action)
    }
}

impl<T: Template> vstd::std_specs::convert::FromSpecImpl<MessageAction<T>> for ActionType<T> {
    open spec fn obeys_from_spec() -> bool {
        true
    }

    open spec fn from_spec(action: MessageAction<T>) -> ActionType<T> {
        ActionType::Message(action)
    }
}

/// The error of the first string of the action that does not compile.
pub open spec fn action_failure<F: TemplateFactory>(factory: F, action: ActionModel<F::Template>)
    -> Option<Seq<char>> {
    match action {
        ActionModel::Message(action) => message_action_failure(factory, action),
    }
}

/// Whether `after` is the action `before` with its strings compiled.
pub open spec fn action_compiled<F: TemplateFactory>(
    factory: F,
    before: ActionModel<F::Template>,
    after: ActionModel<F::Template>,
) -> bool {
    match (before, after) {
        (ActionModel::Message(b), ActionModel::Message(a)) => message_action_compiled(
            factory,
            b,
            a,
        ),
    }
}

/// The error of the first string of the actions that does not compile.
pub open spec fn actions_failure<F: TemplateFactory>(
    factory: F,
    actions: Seq<ActionModel<F::Template>>,
) -> Option<Seq<char>>
    decreases actions.len(),
{
    if actions.len() == 0 {
        None
    } else {
        match actions_failure(factory, actions.drop_last()) {
            Some(error) => Some(error),
            None => action_failure(factory, actions.last()),
        }
    }
}

/// Whether `after` holds the actions of `before` compiled, in their order.
pub open spec fn actions_compiled<F: TemplateFactory>(
    factory: F,
    before: Seq<ActionModel<F::Template>>,
    after: Seq<ActionModel<F::Template>>,
) -> bool {
    &&& after.len() == before.len()
    &&& forall|i: int|
        0 <= i < before.len() ==> action_compiled(factory, before[i], #[trigger] after[i])
}

/// The first string that does not compile comes before the end of every
/// longer list.
pub proof fn lemma_actions_failure_stays<F: TemplateFactory>(
    factory: F,
    actions: Seq<ActionModel<F::Template>>,
    count: int,
)
    requires
        0 <= count <= actions.len(),
        actions_failure(factory, actions.take(count)) is Some,
    ensures
        actions_failure(factory, actions) == actions_failure(factory, actions.take(count)),
    decreases actions.len(),
{
    if count < actions.len() {
        assert(actions.drop_last().take(count) =~= actions.take(count));
        lemma_actions_failure_stays(factory, actions.drop_last(), count);
    } else {
        assert(actions.take(count) =~= actions);
    }
}

impl<T: Template> ActionType<T> {
    /// Compiles the strings of the action with `factory`.
    pub fn compile<F: TemplateFactory<Template = T>>(self, factory: &F) -> (result: Result<
        ActionType<T>,
        CompileError,
    >)
        ensures
            result is Ok == action_failure(*factory, self@) is None,
            result is Ok ==> action_compiled(*factory, self@, result->Ok_0@),
            result is Err ==> Some(result->Err_0@) == action_failure(*factory, self@),
    {
        match self {
            ActionType::Message(action) => match action.compile(factory) {
                Ok(compiled) => Ok(ActionType::Message(compiled)),
                Err(error) => Err(error),
            },
        }
    }
}

/// Compiles the strings of every action, in the order of the actions.
pub fn compile_actions<F: TemplateFactory>(factory: &F, actions: Vec<ActionType<F::Template>>)
    -> (result: Result<Vec<ActionType<F::Template>>, CompileError>)
    ensures
        result is Ok == actions_failure(*factory, action_models(actions@)) is None,
        result is Ok ==> actions_compiled(
            *factory,
            action_models(actions@),
            action_models(result->Ok_0@),
        ),
        result is Err ==> Some(result->Err_0@) == actions_failure(
            *factory,
            action_models(actions@),
        ),
{
    let ghost before = action_models(actions@);
    let mut compiled: Vec<ActionType<F::Template>> = Vec::new();
    assert(before.take(0) =~= Seq::empty());
    for action in iter: actions
        invariant
            before == action_models(iter.seq()),
            actions_failure(*factory, before.take(iter.index() as int)) is None,
            actions_compiled(
                *factory,
                before.take(iter.index() as int),
                action_models(compiled@),
            ),
    {
        let ghost at = iter.index() as int;
        let ghost done = action_models(compiled@);
        proof {
            assert(action == iter.seq()[at]);
            assert(before[at] == action@);
            assert(before.take(at + 1).drop_last() =~= before.take(at));
            assert(before.take(at + 1).last() == before[at]);
        }
        match action.compile(factory) {
            Ok(result) => {
                compiled.push(result);
                proof {
                    let now = action_models(compiled@);
                    assert(now =~= done.push(result@));
                    assert forall|i: int| 0 <= i < at + 1 implies action_compiled(
                        *factory,
                        before.take(at + 1)[i],
                        #[trigger] now[i],
                    ) by {
                        if i < at {
                            assert(now[i] == done[i]);
                            assert(before.take(at + 1)[i] == before.take(at)[i]);
                        }
                    }
                }
            },
            Err(error) => {
                proof {
                    lemma_actions_failure_stays(*factory, before, at + 1);
                }
                return Err(error);
            },
        }
    }
    assert(before.take(before.len() as int) =~= before);
    Ok(compiled)
}

} // verus!
