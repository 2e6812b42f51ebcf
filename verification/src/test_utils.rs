//! Simple templates and factories for trying the engine out.

use vstd::prelude::*;
use std::sync::Arc;
use crate::event::{Event, EventIds, EventModel};
use crate::message::Message;
use crate::template::{CompileError, Template, TemplateFactory};

verus! {

/// A template over `Message` events that formats to a fixed text, or that
/// always fails.
pub struct MockTemplate {
    literal: Option<String>,
}

impl MockTemplate {
    /// What the template formats to.
    pub closed spec fn text(&self) -> Option<Seq<char>> {
        match self.literal {
            Some(text) => Some(text@),
            None => None,
        }
    }

    /// A template that always formats to `value`.
    pub fn literal(value: &str) -> (template: MockTemplate)
        ensures
            template.text() == Some(value@),
    {
        MockTemplate { literal: Some(value.to_owned()) }
    }

    /// A template that can never be formatted.
    pub fn failing() -> (template: MockTemplate)
        ensures
            template.text() is None,
    {
        MockTemplate { literal: None }
    }
}

impl Template for MockTemplate {
    type Event = Message;

    open spec fn formatted(&self, messages: Seq<Arc<Message>>, context_id: Seq<char>) -> Option<
        Seq<char>,
    > {
        self.text()
    }

    open spec fn formatted_event(&self, message: Message) -> Option<Seq<char>> {
        self.text()
    }

    fn format_with_context(&self, messages: &[Arc<Message>], context_id: &str) -> (text: Option<
        String,
    >) {
        self.literal.clone()
    }

    fn format(&self, message: &Message) -> (text: Option<String>) {
        self.literal.clone()
    }
}

/// A factory of `MockTemplate`s that either compiles every source to the
/// template that returns it, or rejects every source.
pub struct MockTemplateFactory {
    fails: bool,
}

impl MockTemplateFactory {
    /// Whether the factory rejects every source.
    pub closed spec fn rejects(&self) -> bool {
        self.fails
    }

    /// A factory that rejects every source, with the source as the error.
    pub fn compile_failure() -> (factory: MockTemplateFactory)
        ensures
            factory.rejects(),
    {
        MockTemplateFactory { fails: true }
    }

    /// A factory whose templates format to the source they were compiled
    /// from.
    pub fn compile_value() -> (factory: MockTemplateFactory)
        ensures
            !factory.rejects(),
    {
        MockTemplateFactory { fails: false }
    }
}

impl TemplateFactory for MockTemplateFactory {
    type Template = MockTemplate;

    open spec fn compiles(&self, value: Seq<char>) -> bool {
        !self.rejects()
    }

    open spec fn compiled(&self, value: Seq<char>, template: MockTemplate) -> bool {
        template.text() == Some(value)
    }

    open spec fn failure(&self, value: Seq<char>) -> Seq<char> {
        value
    }

    fn compile(&self, value: &str) -> (result: Result<MockTemplate, CompileError>) {
        if self.fails {
            Err(CompileError(value.to_owned()))
        } else {
            Ok(MockTemplate::literal(value))
        }
    }
}

/// An event that hands every request on to the `Message` it wraps.
#[derive(Clone)]
pub struct MockEvent(pub Message);

impl Event for MockEvent {
    open spec fn model(&self) -> EventModel {
        self.0.model()
    }

    fn get(&self, key: &str) -> (value: Option<&str>) {
        self.0.get(key)
    }

    fn uuid(&self) -> (uuid: &str) {
        self.0.uuid()
    }

    fn ids(&self) -> (ids: EventIds<'_>) {
        self.0.ids()
    }

    fn new(uuid: &str, message: &str) -> (event: Self) {
        MockEvent(Message::new(uuid, message))
    }

    fn set_name(&mut self, name: Option<&str>) {
        self.0.set_name(name);
    }

    fn name(&self) -> (name: Option<&str>) {
        self.0.name()
    }

    fn set(&mut self, key: &str, value: &str) {
        self.0.set(key, value);
    }

    fn set_message(&mut self, message: &str) {
        self.0.set_message(message);
    }

    fn message(&self) -> (message: &str) {
        self.0.message()
    }
}

} // verus!
