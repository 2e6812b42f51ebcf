//! A pattern correlation engine for event streams.
//!
//! Events are grouped into short-lived contexts that a configuration
//! declares; a context emits alerts when it opens and when it closes.
//! Everything here is single-threaded and deterministic: time only
//! advances through explicit timer events.

pub mod conditions;
pub mod config;
pub mod context;
pub mod correlator;
pub mod dispatcher;
pub mod event;
pub mod identifier;
pub mod laws;
pub mod message;
pub mod reactor;
pub mod state;
pub mod support;
pub mod template;
pub mod test_utils;
pub mod timer;

pub use conditions::{Conditions, ConditionsBuilder};
pub use config::action::message::Alert;
pub use config::action::ActionType;
pub use context::context_map::ContextMap;
pub use dispatcher::request::Request;
pub use dispatcher::{Response, ResponseHandle};
pub use event::{Event, EventIds, EventIdsIterator};
pub use message::{Message, MessageBuilder};
pub use template::{CompileError, TemplatableString, Template, TemplateFactory};
