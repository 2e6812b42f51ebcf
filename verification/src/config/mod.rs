//! The configuration of contexts and of their actions.

use vstd::prelude::*;
use crate::conditions::{texts, Conditions, ConditionsModel};
use crate::config::action::{
    action_models, actions_compiled, actions_failure, compile_actions, ActionModel, ActionType,
};
use crate::context::base::{BaseContextBuilder, BaseContextModel};
use crate::context::linear::{LinearContext, LinearContextModel};
use crate::context::Context;
use crate::message::opt_string;
use crate::template::{CompileError, Template, TemplateFactory};

pub mod action;
pub mod decode;
pub mod document;

verus! {

/// What a configuration says of one context.
pub struct ContextConfig<T: Template> {
    pub name: Option<String>,
    pub uuid: u128,
    pub conditions: Conditions,
    /// The fields of an event that would select a partition of the
    /// context. No kind of context reads it so far.
    pub context_id: Option<Vec<String>>,
    pub actions: Vec<ActionType<T>>,
    /// The ids of the events that belong to the context; none means all.
    pub patterns: Vec<String>,
}

/// What a `ContextConfig` holds.
pub struct ContextConfigModel<T> {
    pub name: Option<Seq<char>>,
    pub uuid: u128,
    pub conditions: ConditionsModel,
    pub context_id: Option<Seq<Seq<char>>>,
    pub actions: Seq<ActionModel<T>>,
    pub patterns: Seq<Seq<char>>,
}

impl<T: Template> View for ContextConfig<T> {
    type V = ContextConfigModel<T>;

    open spec fn view(&self) -> ContextConfigModel<T> {
        ContextConfigModel {
            name: opt_string(self.name),
            uuid: self.uuid,
            conditions: self.conditions@,
            context_id: match self.context_id {
                Some(fields) => Some(texts(fields@)),
                None => None,
            },
            actions: action_models(self.actions@),
            patterns: texts(self.patterns@),
        }
    }
}

impl<T: Template> ContextConfigModel<T> {
    /// The policy of the context that is configured: the patterns of the
    /// configuration are those of the context.
    pub open spec fn base(self) -> BaseContextModel<T> {
        BaseContextModel {
            name: self.name,
            uuid: self.uuid,
            conditions: ConditionsModel { patterns: self.patterns, ..self.conditions },
            actions: self.actions,
        }
    }

    /// The context that is configured, closed.
    pub open spec fn context(self) -> LinearContextModel<T> {
        LinearContextModel::fresh(self.base())
    }
}

/// The views of a sequence of configurations.
pub open spec fn config_models<T: Template>(configs: Seq<ContextConfig<T>>) -> Seq<
    ContextConfigModel<T>,
> {
    configs.map_values(|c: ContextConfig<T>| c@)
}

impl<T: Template> ContextConfig<T> {
    /// Builds the context that the configuration describes.
    pub fn into_context(self) -> (context: Context<T>)
        ensures
            context@ == self@.context(),
    {
        let base = BaseContextBuilder::new(self.uuid, self.conditions).name(self.name).actions(
            self.actions,
        ).patterns(self.patterns).build();
        Context::Linear(LinearContext::new(base))
    }
}

/// Builds a `ContextConfig`, starting from the uuid and the conditions.
pub struct ContextConfigBuilder<T: Template> {
    name: Option<String>,
    uuid: u128,
    conditions: Conditions,
    context_id: Option<Vec<String>>,
    actions: Vec<ActionType<T>>,
    patterns: Vec<String>,
}

impl<T: Template> ContextConfigBuilder<T> {
    /// What `build` would return now.
    pub closed spec fn model(&self) -> ContextConfigModel<T> {
        ContextConfigModel {
            name: opt_string(self.name),
            uuid: self.uuid,
            conditions: self.conditions@,
            context_id: match self.context_id {
                Some(fields) => Some(texts(fields@)),
                None => None,
            },
            actions: action_models(self.actions@),
            patterns: texts(self.patterns@),
        }
    }

    /// A configuration without a name, without actions and without
    /// patterns.
    pub fn new(uuid: u128, conditions: Conditions) -> (builder: ContextConfigBuilder<T>)
        ensures
            builder.model() == (ContextConfigModel::<T> {
                name: None,
                uuid,
                conditions: conditions@,
                context_id: None,
                actions: Seq::empty(),
                patterns: Seq::empty(),
            }),
    {
        let builder = ContextConfigBuilder {
            name: None,
            uuid: uuid,
            conditions: conditions,
            context_id: None,
            actions: Vec::new(),
            patterns: Vec::new(),
        };
        assert(builder.model().actions =~= Seq::empty());
        assert(builder.model().patterns =~= Seq::empty());
        builder
    }

    pub fn context_id(self, context_id: Option<Vec<String>>) -> (builder: ContextConfigBuilder<T>)
        ensures
            builder.model() == (ContextConfigModel {
                context_id: match context_id {
                    Some(fields) => Some(texts(fields@)),
                    None => None,
                },
                ..self.model()
            }),
    {
        let mut builder = self;
        builder.context_id = context_id;
        builder
    }

    pub fn actions(self, actions: Vec<ActionType<T>>) -> (builder: ContextConfigBuilder<T>)
        ensures
            builder.model() == (ContextConfigModel {
                actions: action_models(actions@),
                ..self.model()
            }),
    {
        let mut builder = self;
        builder.actions = actions;
        builder
    }

    pub fn name(self, name: String) -> (builder: ContextConfigBuilder<T>)
        ensures
            builder.model() == (ContextConfigModel { name: Some(name@), ..self.model() }),
    {
        let mut builder = self;
        builder.name = Some(name);
        builder
    }

    pub fn patterns(self, patterns: Vec<String>) -> (builder: ContextConfigBuilder<T>)
        ensures
            builder.model() == (ContextConfigModel { patterns: texts(patterns@), ..self.model() }),
    {
        let mut builder = self;
        builder.patterns = patterns;
        builder
    }

    pub fn build(self) -> (config: ContextConfig<T>)
        ensures
            config@ == self.model(),
    {
        ContextConfig {
            name: self.name,
            uuid: self.uuid,
            conditions: self.conditions,
            context_id: self.context_id,
            actions: self.actions,
            patterns: self.patterns,
        }
    }
}

/// Whether `after` is the configuration `before` with the strings of its
/// actions compiled.
pub open spec fn config_compiled<F: TemplateFactory>(
    factory: F,
    before: ContextConfigModel<F::Template>,
    after: ContextConfigModel<F::Template>,
) -> bool {
    &&& after.name == before.name
    &&& after.uuid == before.uuid
    &&& after.conditions == before.conditions
    &&& after.context_id == before.context_id
    &&& after.patterns == before.patterns
    &&& actions_compiled(factory, before.actions, after.actions)
}

/// The error of the first string of the configurations that does not
/// compile: the contexts come in their order, the actions of a context in
/// theirs, and of an action the message before the values.
pub open spec fn configs_failure<F: TemplateFactory>(
    factory: F,
    configs: Seq<ContextConfigModel<F::Template>>,
) -> Option<Seq<char>>
    decreases configs.len(),
{
    if configs.len() == 0 {
        None
    } else {
        match configs_failure(factory, configs.drop_last()) {
            Some(error) => Some(error),
            None => actions_failure(factory, configs.last().actions),
        }
    }
}

/// Whether `after` holds the configurations of `before` compiled, in their
/// order.
pub open spec fn configs_compiled<F: TemplateFactory>(
    factory: F,
    before: Seq<ContextConfigModel<F::Template>>,
    after: Seq<ContextConfigModel<F::Template>>,
) -> bool {
    &&& after.len() == before.len()
    &&& forall|i: int|
        0 <= i < before.len() ==> config_compiled(factory, before[i], #[trigger] after[i])
}

/// The first string that does not compile comes before the end of every
/// longer list.
pub proof fn lemma_configs_failure_stays<F: TemplateFactory>(
    factory: F,
    configs: Seq<ContextConfigModel<F::Template>>,
    count: int,
)
    requires
        0 <= count <= configs.len(),
        configs_failure(factory, configs.take(count)) is Some,
    ensures
        configs_failure(factory, configs) == configs_failure(factory, configs.take(count)),
    decreases configs.len(),
{
    if count < configs.len() {
        assert(configs.drop_last().take(count) =~= configs.take(count));
        lemma_configs_failure_stays(factory, configs.drop_last(), count);
    } else {
        assert(configs.take(count) =~= configs);
    }
}

impl<T: Template> ContextConfig<T> {
    /// Compiles the strings of every action with `factory`.
    pub fn compile<F: TemplateFactory<Template = T>>(self, factory: &F) -> (result: Result<
        ContextConfig<T>,
        CompileError,
    >)
        ensures
            result is Ok == actions_failure(*factory, self@.actions) is None,
            result is Ok ==> config_compiled(*factory, self@, result->Ok_0@),
            result is Err ==> Some(result->Err_0@) == actions_failure(*factory, self@.actions),
    {
        match compile_actions(factory, self.actions) {
            Ok(actions) => Ok(
                ContextConfig {
                    name: self.name,
                    uuid: self.uuid,
                    conditions: self.conditions,
                    context_id: self.context_id,
                    actions,
                    patterns: self.patterns,
                },
            ),
            Err(error) => Err(error),
        }
    }
}

/// Compiles the strings of every configuration, in the order of the
/// configurations. The first string that does not compile ends it with its
/// error.
pub fn compile_configs<F: TemplateFactory>(factory: &F, configs: Vec<ContextConfig<F::Template>>)
    -> (result: Result<Vec<ContextConfig<F::Template>>, CompileError>)
    ensures
        result is Ok == configs_failure(*factory, config_models(configs@)) is None,
        result is Ok ==> configs_compiled(
            *factory,
            config_models(configs@),
            config_models(result->Ok_0@),
        ),
        result is Err ==> Some(result->Err_0@) == configs_failure(
            *factory,
            config_models(configs@),
        ),
{
    let ghost before = config_models(configs@);
    let mut compiled: Vec<ContextConfig<F::Template>> = Vec::new();
    assert(before.take(0) =~= Seq::empty());
    for config in iter: configs
        invariant
            before == config_models(iter.seq()),
            configs_failure(*factory, before.take(iter.index() as int)) is None,
            configs_compiled(
                *factory,
                before.take(iter.index() as int),
                config_models(compiled@),
            ),
    {
        let ghost at = iter.index() as int;
        let ghost done = config_models(compiled@);
        proof {
            assert(config == iter.seq()[at]);
            assert(before[at] == config@);
            assert(before.take(at + 1).drop_last() =~= before.take(at));
            assert(before.take(at + 1).last() == before[at]);
        }
        match config.compile(factory) {
            Ok(result) => {
                compiled.push(result);
                proof {
                    let now = config_models(compiled@);
                    assert(now =~= done.push(result@));
                    assert forall|i: int| 0 <= i < at + 1 implies config_compiled(
                        *factory,
                        before.take(at + 1)[i],
                        #[trigger] now[i],
                    ) by {
                        if i < at {
                            assert(now[i] == done[i]);
                            assert(before.take(at + 1)[i] == before.take(at)[i]);
                        }
                    }
                }
            },
            Err(error) => {
                proof {
                    lemma_configs_failure_stays(*factory, before, at + 1);
                }
                return Err(error);
            },
        }
    }
    assert(before.take(before.len() as int) =~= before);
    Ok(compiled)
}

} // verus!
