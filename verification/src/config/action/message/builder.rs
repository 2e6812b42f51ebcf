//! Building a `MessageAction` step by step.

use vstd::prelude::*;
use crate::config::action::message::{value_models, InjectMode, MessageAction, MessageActionModel};
use crate::config::action::ExecCondition;
use crate::event::opt_text;
use crate::template::{TemplatableModel, TemplatableString, Template};
use crate::support::text_eq;

verus! {

/// Whether one of the pairs has the key.
pub open spec fn has_key<V>(pairs: Seq<(Seq<char>, V)>, key: Seq<char>) -> bool {
    exists|i: int| 0 <= i < pairs.len() && (#[trigger] pairs[i]).0 == key
}

/// Whether the first pair with the key stands at `at`.
pub open spec fn is_first_with_key<V>(pairs: Seq<(Seq<char>, V)>, key: Seq<char>, at: int) -> bool {
    &&& 0 <= at < pairs.len()
    &&& pairs[at].0 == key
    &&& forall|j: int| 0 <= j < at ==> (#[trigger] pairs[j]).0 != key
}

/// The pairs after `value` was stored under `key`: it takes the place of
/// the first pair with that key, or comes last where there is none.
pub open spec fn with_pair<V>(pairs: Seq<(Seq<char>, V)>, key: Seq<char>, value: V) -> Seq<
    (Seq<char>, V),
> {
    if has_key(pairs, key) {
        pairs.update(choose|at: int| is_first_with_key(pairs, key, at), (key, value))
    } else {
        pairs.push((key, value))
    }
}

/// Builds a `MessageAction`, starting from the uuid and the message of its
/// alerts.
pub struct MessageActionBuilder<T: Template> {
    uuid: String,
    name: Option<String>,
    message: TemplatableString<T>,
    values: Vec<(String, TemplatableString<T>)>,
    when: ExecCondition,
    inject_mode: InjectMode,
}

impl<T: Template> MessageActionBuilder<T> {
    /// What `build` would return now.
    pub closed spec fn model(&self) -> MessageActionModel<T> {
        MessageActionModel {
            uuid: self.uuid@,
            name: crate::message::opt_string(self.name),
            message: self.message@,
            values: value_models(self.values@),
            when: self.when,
            inject_mode: self.inject_mode,
        }
    }

    /// An action with a literal message, no name and no values, that runs
    /// on no transition and whose alerts are logged.
    pub fn new(uuid: &str, message: &str) -> (builder: MessageActionBuilder<T>)
        ensures
            builder.model() == (MessageActionModel::<T> {
                uuid: uuid@,
                name: None,
                message: TemplatableModel::Literal(message@),
                values: Seq::empty(),
                when: ExecCondition::none(),
                inject_mode: InjectMode::Log,
            }),
    {
        let builder = MessageActionBuilder {
            uuid: uuid.to_owned(),
            name: None,
            message: TemplatableString::Literal(message.to_owned()),
            values: Vec::new(),
            when: ExecCondition::new(),
            inject_mode: InjectMode::Log,
        };
        assert(builder.model().values =~= Seq::empty());
        builder
    }

    pub fn name(self, name: Option<&str>) -> (builder: MessageActionBuilder<T>)
        ensures
            builder.model() == (MessageActionModel { name: opt_text(name), ..self.model() }),
    {
        let mut builder = self;
        builder.name = match name {
            Some(n) => Some(n.to_owned()),
            None => None,
        };
        builder
    }

    pub fn when(self, when: ExecCondition) -> (builder: MessageActionBuilder<T>)
        ensures
            builder.model() == (MessageActionModel { when, ..self.model() }),
    {
        let mut builder = self;
        builder.when = when;
        builder
    }

    /// Replaces all values.
    pub fn values(self, values: Vec<(String, TemplatableString<T>)>) -> (builder:
        MessageActionBuilder<T>)
        ensures
            builder.model() == (MessageActionModel {
                values: value_models(values@),
                ..self.model()
            }),
    {
        let mut builder = self;
        builder.values = values;
        builder
    }

    /// Stores the literal `value` under `key`, in place of the value that
    /// the key had, if any.
    pub fn pair(self, key: &str, value: &str) -> (builder: MessageActionBuilder<T>)
        ensures
            builder.model() == (MessageActionModel {
                values: with_pair(self.model().values, key@, TemplatableModel::Literal(value@)),
                ..self.model()
            }),
    {
        let mut builder = self;
        let ghost pairs = value_models(builder.values@);
        let mut i: usize = 0;
        while i < builder.values.len()
            invariant
                i <= builder.values.len(),
                builder == self,
                pairs == value_models(builder.values@),
                pairs.len() == builder.values.len(),
                forall|j: int| 0 <= j < i ==> (#[trigger] pairs[j]).0 != key@,
            decreases builder.values.len() - i,
        {
            if text_eq(builder.values[i].0.as_str(), key) {
                proof {
                    assert(pairs[i as int].0 == key@);
                    assert(has_key(pairs, key@));
                    assert(is_first_with_key(pairs, key@, i as int));
                    let chosen = choose|at: int| is_first_with_key(pairs, key@, at);
                    assert(chosen == i);
                }
                builder.values.set(i, (key.to_owned(), TemplatableString::Literal(value.to_owned())));
                assert(value_models(builder.values@) =~= pairs.update(
                    i as int,
                    (key@, TemplatableModel::Literal(value@)),
                ));
                return builder;
            }
            i += 1;
        }
        assert(!has_key(pairs, key@));
        builder.values.push((key.to_owned(), TemplatableString::Literal(value.to_owned())));
        assert(value_models(builder.values@) =~= pairs.push(
            (key@, TemplatableModel::Literal(value@)),
        ));
        builder
    }

    pub fn inject_mode(self, mode: InjectMode) -> (builder: MessageActionBuilder<T>)
        ensures
            builder.model() == (MessageActionModel { inject_mode: mode, ..self.model() }),
    {
        let mut builder = self;
        builder.inject_mode = mode;
        builder
    }

    pub fn build(self) -> (action: MessageAction<T>)
        ensures
            action@ == self.model(),
    {
        MessageAction {
            uuid: self.uuid,
            name: self.name,
            message: self.message,
            values: self.values,
            when: self.when,
            inject_mode: self.inject_mode,
        }
    }
}

} // verus!
