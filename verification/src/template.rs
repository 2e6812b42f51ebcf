//! Templates: compiled, reusable formatters that turn the events of a
//! context into text.

use vstd::prelude::*;
use std::sync::Arc;
use crate::event::Event;
use crate::message::opt_string;

verus! {

/// Why a template source did not compile.
#[derive(Clone, Debug, PartialEq, Eq)]
pub struct CompileError(pub String);

impl View for CompileError {
    type V = Seq<char>;

    open spec fn view(&self) -> Seq<char> {
        self.0@
    }
}

/// A compiled formatter.
pub trait Template: Sized {
    type Event: Event;

    /// The text that the template produces from the events of a context and
    /// the context's id, or `None` where it cannot be formatted.
    spec fn formatted(&self, messages: Seq<Arc<Self::Event>>, context_id: Seq<char>) -> Option<
        Seq<char>,
    >;

    /// The text that the template produces from a single event.
    spec fn formatted_event(&self, message: Self::Event) -> Option<Seq<char>>;

    fn format_with_context(&self, messages: &[Arc<Self::Event>], context_id: &str) -> (text:
        Option<String>)
        ensures
            opt_string(text) == self.formatted(messages@, context_id@),
    ;

    fn format(&self, message: &Self::Event) -> (text: Option<String>)
        ensures
            opt_string(text) == self.formatted_event(*message),
    ;
}

/// Compiles template sources.
pub trait TemplateFactory {
    type Template: Template;

    /// Whether `value` compiles.
    spec fn compiles(&self, value: Seq<char>) -> bool;

    /// Whether `template` is what `value` compiles to.
    spec fn compiled(&self, value: Seq<char>, template: Self::Template) -> bool;

    /// The error that compiling `value` reports.
    spec fn failure(&self, value: Seq<char>) -> Seq<char>;

    fn compile(&self, value: &str) -> (result: Result<Self::Template, CompileError>)
        ensures
            result is Ok == self.compiles(value@),
            result is Ok ==> self.compiled(value@, result->Ok_0),
            result is Err ==> result->Err_0@ == self.failure(value@),
    ;
}

/// A string of a configuration that is either still source text or a
/// compiled template.
pub enum TemplatableString<T: Template> {
    Literal(String),
    Template(T),
}

/// What a `TemplatableString` holds.
pub enum TemplatableModel<T> {
    Literal(Seq<char>),
    Template(T),
}

impl<T: Template> View for TemplatableString<T> {
    type V = TemplatableModel<T>;

    open spec fn view(&self) -> TemplatableModel<T> {
        match self {
            TemplatableString::Literal(text) => TemplatableModel::Literal(text@),
            TemplatableString::Template(template) => TemplatableModel::Template(*template),
        }
    }
}

impl<T: Template> TemplatableModel<T> {
    /// The text that the string stands for in a context: a literal stands
    /// for itself, a template for what it formats to.
    pub open spec fn rendered(self, messages: Seq<Arc<T::Event>>, context_id: Seq<char>) -> Option<
        Seq<char>,
    > {
        match self {
            TemplatableModel::Literal(text) => Some(text),
            TemplatableModel::Template(template) => template.formatted(messages, context_id),
        }
    }
}

impl<T: Template> TemplatableString<T> {
    /// Renders the string for a context with the given events and id.
    pub fn render(&self, messages: &[Arc<T::Event>], context_id: &str) -> (text: Option<String>)
        ensures
            opt_string(text) == self@.rendered(messages@, context_id@),
    {
        match self {
            TemplatableString::Literal(text) => Some(text.clone()),
            TemplatableString::Template(template) => template.format_with_context(
                messages,
                context_id,
            ),
        }
    }
}

/// The error of compiling the string, where it is a literal that does not
/// compile.
pub open spec fn string_failure<F: TemplateFactory>(
    factory: F,
    string: TemplatableModel<F::Template>,
) -> Option<Seq<char>> {
    match string {
        TemplatableModel::Literal(text) => if factory.compiles(text) {
            None
        } else {
            Some(factory.failure(text))
        },
        TemplatableModel::Template(_) => None,
    }
}

/// Whether `after` is `before` compiled: a literal has become what it
/// compiles to, a template is as it was.
pub open spec fn string_compiled<F: TemplateFactory>(
    factory: F,
    before: TemplatableModel<F::Template>,
    after: TemplatableModel<F::Template>,
) -> bool {
    match before {
        TemplatableModel::Literal(text) => after matches TemplatableModel::Template(template)
            && factory.compiled(text, template),
        TemplatableModel::Template(_) => after == before,
    }
}

/// Compiles a string: a literal becomes the template that the factory
/// makes of it, a template stays.
pub fn compile_string<F: TemplateFactory>(factory: &F, string: TemplatableString<F::Template>)
    -> (result: Result<TemplatableString<F::Template>, CompileError>)
    ensures
        result is Ok == string_failure(*factory, string@) is None,
        result is Ok ==> string_compiled(*factory, string@, result->Ok_0@),
        result is Err ==> Some(result->Err_0@) == string_failure(*factory, string@),
{
    match string {
        TemplatableString::Literal(text) => match factory.compile(text.as_str()) {
            Ok(template) => Ok(TemplatableString::Template(template)),
            Err(error) => Err(error),
        },
        TemplatableString::Template(template) => Ok(TemplatableString::Template(template)),
    }
}

} // verus!
