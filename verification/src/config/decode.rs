//! Reading configurations out of documents.
//!
//! A table is read entry by entry, in the order of the document. A key
//! that the table does not know and a value of the wrong type are errors;
//! so is a field that is required and is missing when all entries are
//! read. A field that occurs twice has the value of its last occurrence.

use vstd::prelude::*;
use crate::conditions::{texts, Conditions, ConditionsModel};
use crate::config::action::message::builder::MessageActionBuilder;
use crate::config::action::message::{
    pair_models, value_models, InjectMode, MessageAction, MessageActionModel,
};
use crate::config::action::{action_models, ActionModel, ActionType, ExecCondition};
use crate::config::document::{json_document, parse_json, parse_yaml, yaml_document, Document};
use crate::config::{config_models, ContextConfig, ContextConfigModel};
use crate::identifier::{parse_uuid, parsed_uuid};
use crate::message::opt_string;
use crate::support::text_eq;
use crate::template::{TemplatableModel, TemplatableString, Template};

verus! {

/// Why a document is not a configuration.
#[derive(Debug)]
pub enum DecodeError {
    /// The text is not JSON.
    Json(serde_json::Error),
    /// The text is not YAML.
    Yaml(serde_yaml::Error),
    /// A table has an entry under a key that it does not know.
    UnexpectedField(String),
    /// A table lacks a field that it must have.
    MissingField(String),
    /// An action or an inject mode of an unknown name.
    UnknownVariant(String),
    /// The value of the named field, or the named thing, is of the wrong
    /// type.
    InvalidType(String),
    /// The text is not a UUID.
    InvalidUuid(String),
}

/// What a `DecodeError` says.
pub enum DecodeFailure {
    Syntax,
    UnexpectedField(Seq<char>),
    MissingField(Seq<char>),
    UnknownVariant(Seq<char>),
    InvalidType(Seq<char>),
    InvalidUuid(Seq<char>),
}

impl View for DecodeError {
    type V = DecodeFailure;

    open spec fn view(&self) -> DecodeFailure {
        match self {
            DecodeError::Json(_) => DecodeFailure::Syntax,
            DecodeError::Yaml(_) => DecodeFailure::Syntax,
            DecodeError::UnexpectedField(key) => DecodeFailure::UnexpectedField(key@),
            DecodeError::MissingField(key) => DecodeFailure::MissingField(key@),
            DecodeError::UnknownVariant(name) => DecodeFailure::UnknownVariant(name@),
            DecodeError::InvalidType(what) => DecodeFailure::InvalidType(what@),
            DecodeError::InvalidUuid(text) => DecodeFailure::InvalidUuid(text@),
        }
    }
}

/// The name of a key in error messages: its text, or nothing for a key
/// that is not a text.
pub open spec fn key_text(key: Document) -> Seq<char> {
    match key {
        Document::Text(text) => text@,
        _ => Seq::empty(),
    }
}

/// The name of a key in error messages.
pub fn key_name(key: &Document) -> (name: String)
    ensures
        name@ == key_text(*key),
{
    match key {
        Document::Text(text) => text.clone(),
        _ => String::new(),
    }
}

/// Whether the key is the text `name`.
pub open spec fn is_key(key: Document, name: Seq<char>) -> bool {
    key matches Document::Text(text) && text@ == name
}

/// Whether the key is the text `name`.
pub fn key_is(key: &Document, name: &str) -> (same: bool)
    ensures
        same == is_key(*key, name@),
{
    match key {
        Document::Text(text) => text_eq(text.as_str(), name),
        _ => false,
    }
}

/// The flag that a document holds: a boolean, or one of the texts "true"
/// and "false".
pub open spec fn flag_of(document: Document, field: Seq<char>) -> Result<bool, DecodeFailure> {
    match document {
        Document::Bool(flag) => Ok(flag),
        Document::Text(text) => if text@ == "true"@ {
            Ok(true)
        } else if text@ == "false"@ {
            Ok(false)
        } else {
            Err(DecodeFailure::InvalidType(field))
        },
        _ => Err(DecodeFailure::InvalidType(field)),
    }
}

/// Reads a flag, the value of `field`.
pub fn decode_flag(document: &Document, field: &str) -> (result: Result<bool, DecodeError>)
    ensures
        result is Ok ==> flag_of(*document, field@) == Ok::<bool, DecodeFailure>(result->Ok_0),
        result is Err ==> flag_of(*document, field@) == Err::<bool, DecodeFailure>(result->Err_0@),
{
    match document {
        Document::Bool(flag) => Ok(*flag),
        Document::Text(text) => {
            if text_eq(text.as_str(), "true") {
                Ok(true)
            } else if text_eq(text.as_str(), "false") {
                Ok(false)
            } else {
                Err(DecodeError::InvalidType(field.to_owned()))
            }
        },
        _ => Err(DecodeError::InvalidType(field.to_owned())),
    }
}

/// The whole number that a document holds.
pub open spec fn number_of(document: Document, field: Seq<char>) -> Result<u64, DecodeFailure> {
    match document {
        Document::Number(Some(number)) => Ok(number),
        _ => Err(DecodeFailure::InvalidType(field)),
    }
}

/// Reads a whole number, the value of `field`.
pub fn decode_number(document: &Document, field: &str) -> (result: Result<u64, DecodeError>)
    ensures
        result is Ok ==> number_of(*document, field@) == Ok::<u64, DecodeFailure>(result->Ok_0),
        result is Err ==> number_of(*document, field@) == Err::<u64, DecodeFailure>(result->Err_0@),
{
    match document {
        Document::Number(Some(number)) => Ok(*number),
        _ => Err(DecodeError::InvalidType(field.to_owned())),
    }
}

/// The text that a document holds.
pub open spec fn text_of(document: Document, field: Seq<char>) -> Result<Seq<char>, DecodeFailure> {
    match document {
        Document::Text(text) => Ok(text@),
        _ => Err(DecodeFailure::InvalidType(field)),
    }
}

/// Reads a text, the value of `field`.
pub fn decode_text(document: &Document, field: &str) -> (result: Result<String, DecodeError>)
    ensures
        result is Ok ==> text_of(*document, field@) == Ok::<Seq<char>, DecodeFailure>(
            result->Ok_0@,
        ),
        result is Err ==> text_of(*document, field@) == Err::<Seq<char>, DecodeFailure>(
            result->Err_0@,
        ),
{
    match document {
        Document::Text(text) => Ok(text.clone()),
        _ => Err(DecodeError::InvalidType(field.to_owned())),
    }
}

/// The inject mode that a document names: one of the texts "log",
/// "forward" and "loopback".
pub open spec fn inject_mode_of(document: Document) -> Result<InjectMode, DecodeFailure> {
    match document {
        Document::Text(text) => if text@ == "log"@ {
            Ok(InjectMode::Log)
        } else if text@ == "loopback"@ {
            Ok(InjectMode::Loopback)
        } else if text@ == "forward"@ {
            Ok(InjectMode::Forward)
        } else {
            Err(DecodeFailure::UnknownVariant(text@))
        },
        _ => Err(DecodeFailure::InvalidType("inject_mode"@)),
    }
}

/// Reads an inject mode.
pub fn decode_inject_mode(document: &Document) -> (result: Result<InjectMode, DecodeError>)
    ensures
        result is Ok ==> inject_mode_of(*document) == Ok::<InjectMode, DecodeFailure>(
            result->Ok_0,
        ),
        result is Err ==> inject_mode_of(*document) == Err::<InjectMode, DecodeFailure>(
            result->Err_0@,
        ),
{
    match document {
        Document::Text(text) => {
            if text_eq(text.as_str(), "log") {
                Ok(InjectMode::Log)
            } else if text_eq(text.as_str(), "loopback") {
                Ok(InjectMode::Loopback)
            } else if text_eq(text.as_str(), "forward") {
                Ok(InjectMode::Forward)
            } else {
                Err(DecodeError::UnknownVariant(text.clone()))
            }
        },
        _ => Err(DecodeError::InvalidType("inject_mode".to_owned())),
    }
}

/// An exec condition after one more entry of its table was read.
pub open spec fn exec_condition_field(condition: ExecCondition, key: Document, value: Document)
    -> Result<ExecCondition, DecodeFailure> {
    if is_key(key, "on_opened"@) {
        match flag_of(value, "on_opened"@) {
            Ok(flag) => Ok(ExecCondition { on_opened: flag, ..condition }),
            Err(error) => Err(error),
        }
    } else if is_key(key, "on_closed"@) {
        match flag_of(value, "on_closed"@) {
            Ok(flag) => Ok(ExecCondition { on_closed: flag, ..condition }),
            Err(error) => Err(error),
        }
    } else {
        Err(DecodeFailure::UnexpectedField(key_text(key)))
    }
}

/// An exec condition after the entries of its table were read, starting
/// from the default.
pub open spec fn exec_condition_fields(entries: Seq<(Document, Document)>) -> Result<
    ExecCondition,
    DecodeFailure,
>
    decreases entries.len(),
{
    if entries.len() == 0 {
        Ok(ExecCondition::none())
    } else {
        match exec_condition_fields(entries.drop_last()) {
            Ok(condition) => exec_condition_field(condition, entries.last().0, entries.last().1),
            Err(error) => Err(error),
        }
    }
}

/// The exec condition that a document holds: a table with the optional
/// flags `on_opened` and `on_closed`.
pub open spec fn exec_condition_of(document: Document) -> Result<ExecCondition, DecodeFailure> {
    match document {
        Document::Table(entries) => exec_condition_fields(entries@),
        _ => Err(DecodeFailure::InvalidType("when"@)),
    }
}

/// Reading stops at the first entry that is in error.
pub proof fn lemma_exec_condition_stops(entries: Seq<(Document, Document)>, count: int)
    requires
        0 <= count <= entries.len(),
        exec_condition_fields(entries.take(count)) is Err,
    ensures
        exec_condition_fields(entries) == exec_condition_fields(entries.take(count)),
    decreases entries.len(),
{
    if count < entries.len() {
        assert(entries.drop_last().take(count) =~= entries.take(count));
        lemma_exec_condition_stops(entries.drop_last(), count);
    } else {
        assert(entries.take(count) =~= entries);
    }
}

/// Reads the entries of the table of an exec condition.
fn decode_exec_condition_fields(entries: &Vec<(Document, Document)>) -> (result: Result<
    ExecCondition,
    DecodeError,
>)
    ensures
        result is Ok ==> exec_condition_fields(entries@) == Ok::<ExecCondition, DecodeFailure>(
            result->Ok_0,
        ),
        result is Err ==> exec_condition_fields(entries@) == Err::<ExecCondition, DecodeFailure>(
            result->Err_0@,
        ),
{
    let mut condition = ExecCondition::new();
    let mut i: usize = 0;
    assert(entries@.take(0) =~= Seq::empty());
    while i < entries.len()
        invariant
            i <= entries.len(),
            exec_condition_fields(entries@.take(i as int)) == Ok::<ExecCondition, DecodeFailure>(
                condition,
            ),
        decreases entries.len() - i,
    {
        proof {
            assert(entries@.take(i + 1).drop_last() =~= entries@.take(i as int));
            assert(entries@.take(i + 1).last() == entries@[i as int]);
        }
        let key = &entries[i].0;
        let value = &entries[i].1;
        let step: Result<ExecCondition, DecodeError> = if key_is(key, "on_opened") {
            match decode_flag(value, "on_opened") {
                Ok(flag) => Ok(ExecCondition { on_opened: flag, on_closed: condition.on_closed }),
                Err(error) => Err(error),
            }
        } else if key_is(key, "on_closed") {
            match decode_flag(value, "on_closed") {
                Ok(flag) => Ok(ExecCondition { on_opened: condition.on_opened, on_closed: flag }),
                Err(error) => Err(error),
            }
        } else {
            Err(DecodeError::UnexpectedField(key_name(key)))
        };
        match step {
            Ok(next) => {
                condition = next;
            },
            Err(error) => {
                proof {
                    lemma_exec_condition_stops(entries@, i + 1);
                }
                return Err(error);
            },
        }
        i += 1;
    }
    assert(entries@.take(i as int) =~= entries@);
    Ok(condition)
}

/// Reads an exec condition.
pub fn decode_exec_condition(document: &Document) -> (result: Result<ExecCondition, DecodeError>)
    ensures
        result is Ok ==> exec_condition_of(*document) == Ok::<ExecCondition, DecodeFailure>(
            result->Ok_0,
        ),
        result is Err ==> exec_condition_of(*document) == Err::<ExecCondition, DecodeFailure>(
            result->Err_0@,
        ),
{
    match document {
        Document::Table(entries) => decode_exec_condition_fields(entries),
        _ => Err(DecodeError::InvalidType("when".to_owned())),
    }
}

/// The field of an alert that an entry of a table of values holds: a text
/// under a text.
pub open spec fn value_of(key: Document, value: Document) -> Result<
    (Seq<char>, Seq<char>),
    DecodeFailure,
> {
    match key {
        Document::Text(name) => match text_of(value, name@) {
            Ok(text) => Ok((name@, text)),
            Err(error) => Err(error),
        },
        _ => Err(DecodeFailure::InvalidType("values"@)),
    }
}

/// The fields of an alert that the entries of a table of values hold, in
/// the order of the entries.
pub open spec fn values_of_entries(entries: Seq<(Document, Document)>) -> Result<
    Seq<(Seq<char>, Seq<char>)>,
    DecodeFailure,
>
    decreases entries.len(),
{
    if entries.len() == 0 {
        Ok(Seq::empty())
    } else {
        match values_of_entries(entries.drop_last()) {
            Ok(pairs) => match value_of(entries.last().0, entries.last().1) {
                Ok(pair) => Ok(pairs.push(pair)),
                Err(error) => Err(error),
            },
            Err(error) => Err(error),
        }
    }
}

/// The fields of an alert that a document holds: a table of texts.
pub open spec fn values_of(document: Document) -> Result<Seq<(Seq<char>, Seq<char>)>, DecodeFailure> {
    match document {
        Document::Table(entries) => values_of_entries(entries@),
        _ => Err(DecodeFailure::InvalidType("values"@)),
    }
}

/// Reading stops at the first entry that is in error.
pub proof fn lemma_values_stop(entries: Seq<(Document, Document)>, count: int)
    requires
        0 <= count <= entries.len(),
        values_of_entries(entries.take(count)) is Err,
    ensures
        values_of_entries(entries) == values_of_entries(entries.take(count)),
    decreases entries.len(),
{
    if count < entries.len() {
        assert(entries.drop_last().take(count) =~= entries.take(count));
        lemma_values_stop(entries.drop_last(), count);
    } else {
        assert(entries.take(count) =~= entries);
    }
}

/// Reads the entries of a table of values.
fn decode_value_entries(entries: &Vec<(Document, Document)>) -> (result: Result<
    Vec<(String, String)>,
    DecodeError,
>)
    ensures
        result is Ok ==> values_of_entries(entries@) == Ok::<
            Seq<(Seq<char>, Seq<char>)>,
            DecodeFailure,
        >(pair_models(result->Ok_0@)),
        result is Err ==> values_of_entries(entries@) == Err::<
            Seq<(Seq<char>, Seq<char>)>,
            DecodeFailure,
        >(result->Err_0@),
{
    let mut pairs: Vec<(String, String)> = Vec::new();
    let mut i: usize = 0;
    assert(entries@.take(0) =~= Seq::empty());
    assert(pair_models(pairs@) =~= Seq::empty());
    while i < entries.len()
        invariant
            i <= entries.len(),
            values_of_entries(entries@.take(i as int)) == Ok::<
                Seq<(Seq<char>, Seq<char>)>,
                DecodeFailure,
            >(pair_models(pairs@)),
        decreases entries.len() - i,
    {
        proof {
            assert(entries@.take(i + 1).drop_last() =~= entries@.take(i as int));
            assert(entries@.take(i + 1).last() == entries@[i as int]);
        }
        let step: Result<(String, String), DecodeError> = match &entries[i].0 {
            Document::Text(name) => match decode_text(&entries[i].1, name.as_str()) {
                Ok(text) => Ok((name.clone(), text)),
                Err(error) => Err(error),
            },
            _ => Err(DecodeError::InvalidType("values".to_owned())),
        };
        match step {
            Ok(pair) => {
                let ghost before = pairs@;
                pairs.push(pair);
                assert(pair_models(pairs@) =~= pair_models(before).push((pair.0@, pair.1@)));
            },
            Err(error) => {
                proof {
                    lemma_values_stop(entries@, i + 1);
                }
                return Err(error);
            },
        }
        i += 1;
    }
    assert(entries@.take(i as int) =~= entries@);
    Ok(pairs)
}

/// Reads the fields of an alert.
pub fn decode_values(document: &Document) -> (result: Result<Vec<(String, String)>, DecodeError>)
    ensures
        result is Ok ==> values_of(*document) == Ok::<Seq<(Seq<char>, Seq<char>)>, DecodeFailure>(
            pair_models(result->Ok_0@),
        ),
        result is Err ==> values_of(*document) == Err::<
            Seq<(Seq<char>, Seq<char>)>,
            DecodeFailure,
        >(result->Err_0@),
{
    match document {
        Document::Table(entries) => decode_value_entries(entries),
        _ => Err(DecodeError::InvalidType("values".to_owned())),
    }
}

/// What is known of a message action while its table is read.
pub struct MessageActionParts {
    pub uuid: Option<Seq<char>>,
    pub name: Option<Seq<char>>,
    pub message: Option<Seq<char>>,
    pub values: Option<Seq<(Seq<char>, Seq<char>)>>,
    pub when: ExecCondition,
    pub inject_mode: InjectMode,
}

impl MessageActionParts {
    /// What is known before the first entry is read: the defaults.
    pub open spec fn start() -> MessageActionParts {
        MessageActionParts {
            uuid: None,
            name: None,
            message: None,
            values: None,
            when: ExecCondition::none(),
            inject_mode: InjectMode::Log,
        }
    }

    /// What is known after one more entry was read.
    pub open spec fn field(self, key: Document, value: Document) -> Result<
        MessageActionParts,
        DecodeFailure,
    > {
        if is_key(key, "name"@) {
            match text_of(value, "name"@) {
                Ok(text) => Ok(MessageActionParts { name: Some(text), ..self }),
                Err(error) => Err(error),
            }
        } else if is_key(key, "uuid"@) {
            match text_of(value, "uuid"@) {
                Ok(text) => Ok(MessageActionParts { uuid: Some(text), ..self }),
                Err(error) => Err(error),
            }
        } else if is_key(key, "values"@) {
            match values_of(value) {
                Ok(pairs) => Ok(MessageActionParts { values: Some(pairs), ..self }),
                Err(error) => Err(error),
            }
        } else if is_key(key, "message"@) {
            match text_of(value, "message"@) {
                Ok(text) => Ok(MessageActionParts { message: Some(text), ..self }),
                Err(error) => Err(error),
            }
        } else if is_key(key, "when"@) {
            match exec_condition_of(value) {
                Ok(when) => Ok(MessageActionParts { when, ..self }),
                Err(error) => Err(error),
            }
        } else if is_key(key, "inject_mode"@) {
            match inject_mode_of(value) {
                Ok(inject_mode) => Ok(MessageActionParts { inject_mode, ..self }),
                Err(error) => Err(error),
            }
        } else {
            Err(DecodeFailure::UnexpectedField(key_text(key)))
        }
    }

    /// What is known after the entries were read.
    pub open spec fn fields(entries: Seq<(Document, Document)>) -> Result<
        MessageActionParts,
        DecodeFailure,
    >
        decreases entries.len(),
    {
        if entries.len() == 0 {
            Ok(Self::start())
        } else {
            match Self::fields(entries.drop_last()) {
                Ok(parts) => parts.field(entries.last().0, entries.last().1),
                Err(error) => Err(error),
            }
        }
    }

    /// The action that the parts make up: the uuid and the message must be
    /// there, and every text is a literal.
    pub open spec fn finish<T: Template>(self) -> Result<MessageActionModel<T>, DecodeFailure> {
        if self.uuid is None {
            Err(DecodeFailure::MissingField("uuid"@))
        } else if self.message is None {
            Err(DecodeFailure::MissingField("message"@))
        } else {
            Ok(
                MessageActionModel {
                    uuid: self.uuid->0,
                    name: self.name,
                    message: TemplatableModel::Literal(self.message->0),
                    values: literals(
                        match self.values {
                            Some(pairs) => pairs,
                            None => Seq::empty(),
                        },
                    ),
                    when: self.when,
                    inject_mode: self.inject_mode,
                },
            )
        }
    }
}

/// The pairs with every text as a literal.
pub open spec fn literals<T: Template>(pairs: Seq<(Seq<char>, Seq<char>)>) -> Seq<
    (Seq<char>, TemplatableModel<T>),
> {
    pairs.map_values(|pair: (Seq<char>, Seq<char>)| (pair.0, TemplatableModel::Literal(pair.1)))
}

/// The message action that a document holds: a table with the fields
/// `uuid` and `message` and the optional fields `name`, `values`, `when`
/// and `inject_mode`.
pub open spec fn message_action_of<T: Template>(document: Document) -> Result<
    MessageActionModel<T>,
    DecodeFailure,
> {
    match document {
        Document::Table(entries) => match MessageActionParts::fields(entries@) {
            Ok(parts) => parts.finish(),
            Err(error) => Err(error),
        },
        _ => Err(DecodeFailure::InvalidType("message"@)),
    }
}

/// Reading stops at the first entry that is in error.
pub proof fn lemma_message_action_stops(entries: Seq<(Document, Document)>, count: int)
    requires
        0 <= count <= entries.len(),
        MessageActionParts::fields(entries.take(count)) is Err,
    ensures
        MessageActionParts::fields(entries) == MessageActionParts::fields(entries.take(count)),
    decreases entries.len(),
{
    if count < entries.len() {
        assert(entries.drop_last().take(count) =~= entries.take(count));
        lemma_message_action_stops(entries.drop_last(), count);
    } else {
        assert(entries.take(count) =~= entries);
    }
}

/// The fields of a message action, as far as they were read.
struct MessageActionFields {
    uuid: Option<String>,
    name: Option<String>,
    message: Option<String>,
    values: Option<Vec<(String, String)>>,
    when: ExecCondition,
    inject_mode: InjectMode,
}

impl View for MessageActionFields {
    type V = MessageActionParts;

    closed spec fn view(&self) -> MessageActionParts {
        MessageActionParts {
            uuid: opt_string(self.uuid),
            name: opt_string(self.name),
            message: opt_string(self.message),
            values: match self.values {
                Some(pairs) => Some(pair_models(pairs@)),
                None => None,
            },
            when: self.when,
            inject_mode: self.inject_mode,
        }
    }
}

impl MessageActionFields {
    /// Reads one entry.
    fn field(self, key: &Document, value: &Document) -> (result: Result<
        MessageActionFields,
        DecodeError,
    >)
        ensures
            result is Ok ==> self@.field(*key, *value) == Ok::<MessageActionParts, DecodeFailure>(
                result->Ok_0@,
            ),
            result is Err ==> self@.field(*key, *value) == Err::<MessageActionParts, DecodeFailure>(
                result->Err_0@,
            ),
    {
        let mut fields = self;
        if key_is(key, "name") {
            match decode_text(value, "name") {
                Ok(text) => {
                    fields.name = Some(text);
                    Ok(fields)
                },
                Err(error) => Err(error),
            }
        } else if key_is(key, "uuid") {
            match decode_text(value, "uuid") {
                Ok(text) => {
                    fields.uuid = Some(text);
                    Ok(fields)
                },
                Err(error) => Err(error),
            }
        } else if key_is(key, "values") {
            match decode_values(value) {
                Ok(pairs) => {
                    fields.values = Some(pairs);
                    Ok(fields)
                },
                Err(error) => Err(error),
            }
        } else if key_is(key, "message") {
            match decode_text(value, "message") {
                Ok(text) => {
                    fields.message = Some(text);
                    Ok(fields)
                },
                Err(error) => Err(error),
            }
        } else if key_is(key, "when") {
            match decode_exec_condition(value) {
                Ok(when) => {
                    fields.when = when;
                    Ok(fields)
                },
                Err(error) => Err(error),
            }
        } else if key_is(key, "inject_mode") {
            match decode_inject_mode(value) {
                Ok(inject_mode) => {
                    fields.inject_mode = inject_mode;
                    Ok(fields)
                },
                Err(error) => Err(error),
            }
        } else {
            Err(DecodeError::UnexpectedField(key_name(key)))
        }
    }

    /// Reads the entries of a table.
    fn read(entries: &Vec<(Document, Document)>) -> (result: Result<
        MessageActionFields,
        DecodeError,
    >)
        ensures
            result is Ok ==> MessageActionParts::fields(entries@) == Ok::<
                MessageActionParts,
                DecodeFailure,
            >(result->Ok_0@),
            result is Err ==> MessageActionParts::fields(entries@) == Err::<
                MessageActionParts,
                DecodeFailure,
            >(result->Err_0@),
    {
        let mut fields = MessageActionFields {
            uuid: None,
            name: None,
            message: None,
            values: None,
            when: ExecCondition::new(),
            inject_mode: InjectMode::Log,
        };
        let mut i: usize = 0;
        assert(entries@.take(0) =~= Seq::empty());
        while i < entries.len()
            invariant
                i <= entries.len(),
                MessageActionParts::fields(entries@.take(i as int)) == Ok::<
                    MessageActionParts,
                    DecodeFailure,
                >(fields@),
            decreases entries.len() - i,
        {
            proof {
                assert(entries@.take(i + 1).drop_last() =~= entries@.take(i as int));
                assert(entries@.take(i + 1).last() == entries@[i as int]);
            }
            match fields.field(&entries[i].0, &entries[i].1) {
                Ok(next) => {
                    fields = next;
                },
                Err(error) => {
                    proof {
                        lemma_message_action_stops(entries@, i + 1);
                    }
                    return Err(error);
                },
            }
            i += 1;
        }
        assert(entries@.take(i as int) =~= entries@);
        Ok(fields)
    }

    /// Builds the action from the fields.
    fn finish<T: Template>(self) -> (result: Result<MessageAction<T>, DecodeError>)
        ensures
            result is Ok ==> self@.finish::<T>() == Ok::<MessageActionModel<T>, DecodeFailure>(
                result->Ok_0@,
            ),
            result is Err ==> self@.finish::<T>() == Err::<MessageActionModel<T>, DecodeFailure>(
                result->Err_0@,
            ),
    {
        let uuid = match self.uuid {
            Some(uuid) => uuid,
            None => {
                return Err(DecodeError::MissingField("uuid".to_owned()));
            },
        };
        let message = match self.message {
            Some(message) => message,
            None => {
                return Err(DecodeError::MissingField("message".to_owned()));
            },
        };
        let pairs: Vec<(String, String)> = match self.values {
            Some(pairs) => pairs,
            None => Vec::new(),
        };
        let ghost wanted = literals::<T>(pair_models(pairs@));
        let mut values: Vec<(String, TemplatableString<T>)> = Vec::new();
        assert(value_models(values@) =~= wanted.take(0));
        for pair in iter: pairs
            invariant
                wanted == literals::<T>(pair_models(iter.seq())),
                value_models(values@) == wanted.take(iter.index() as int),
        {
            let ghost before = values@;
            let ghost at = iter.index() as int;
            proof {
                assert(pair == iter.seq()[at]);
                assert(pair_models(iter.seq())[at] == (pair.0@, pair.1@));
                assert(wanted[at] == (pair.0@, TemplatableModel::<T>::Literal(pair.1@)));
            }
            values.push((pair.0, TemplatableString::Literal(pair.1)));
            assert(value_models(values@) =~= value_models(before).push(wanted[at]));
            assert(value_models(values@) =~= wanted.take(at + 1));
        }
        assert(wanted.take(wanted.len() as int) =~= wanted);
        let name: Option<&str> = match &self.name {
            Some(name) => Some(name.as_str()),
            None => None,
        };
        let action = MessageActionBuilder::new(uuid.as_str(), message.as_str()).name(name).values(
            values,
        ).when(self.when).inject_mode(self.inject_mode).build();
        proof {
            if self.values is None {
                assert(pair_models(pairs@) =~= Seq::empty());
            }
        }
        Ok(action)
    }
}

/// Reads a message action.
pub fn decode_message_action<T: Template>(document: &Document) -> (result: Result<
    MessageAction<T>,
    DecodeError,
>)
    ensures
        result is Ok ==> message_action_of::<T>(*document) == Ok::<
            MessageActionModel<T>,
            DecodeFailure,
        >(result->Ok_0@),
        result is Err ==> message_action_of::<T>(*document) == Err::<
            MessageActionModel<T>,
            DecodeFailure,
        >(result->Err_0@),
{
    match document {
        Document::Table(entries) => match MessageActionFields::read(entries) {
            Ok(fields) => fields.finish(),
            Err(error) => Err(error),
        },
        _ => Err(DecodeError::InvalidType("message".to_owned())),
    }
}

/// The action that a document holds: a table with one entry, whose key
/// names the kind of the action. The only kind is `message`.
pub open spec fn action_of<T: Template>(document: Document) -> Result<ActionModel<T>, DecodeFailure> {
    match document {
        Document::Table(entries) => if entries@.len() != 1 {
            Err(DecodeFailure::InvalidType("action"@))
        } else if is_key(entries@[0].0, "message"@) {
            match message_action_of::<T>(entries@[0].1) {
                Ok(action) => Ok(ActionModel::Message(action)),
                Err(error) => Err(error),
            }
        } else {
            Err(DecodeFailure::UnknownVariant(key_text(entries@[0].0)))
        },
        _ => Err(DecodeFailure::InvalidType("action"@)),
    }
}

/// Reads an action.
pub fn decode_action<T: Template>(document: &Document) -> (result: Result<ActionType<T>, DecodeError>)
    ensures
        result is Ok ==> action_of::<T>(*document) == Ok::<ActionModel<T>, DecodeFailure>(
            result->Ok_0@,
        ),
        result is Err ==> action_of::<T>(*document) == Err::<ActionModel<T>, DecodeFailure>(
            result->Err_0@,
        ),
{
    match document {
        Document::Table(entries) => {
            if entries.len() != 1 {
                Err(DecodeError::InvalidType("action".to_owned()))
            } else if key_is(&entries[0].0, "message") {
                match decode_message_action::<T>(&entries[0].1) {
                    Ok(action) => Ok(ActionType::Message(action)),
                    Err(error) => Err(error),
                }
            } else {
                Err(DecodeError::UnknownVariant(key_name(&entries[0].0)))
            }
        },
        _ => Err(DecodeError::InvalidType("action".to_owned())),
    }
}

/// The actions that the items of a list hold, in order.
pub open spec fn actions_of_items<T: Template>(items: Seq<Document>) -> Result<
    Seq<ActionModel<T>>,
    DecodeFailure,
>
    decreases items.len(),
{
    if items.len() == 0 {
        Ok(Seq::empty())
    } else {
        match actions_of_items::<T>(items.drop_last()) {
            Ok(actions) => match action_of::<T>(items.last()) {
                Ok(action) => Ok(actions.push(action)),
                Err(error) => Err(error),
            },
            Err(error) => Err(error),
        }
    }
}

/// The actions that a document holds: a list of actions.
pub open spec fn actions_of<T: Template>(document: Document) -> Result<
    Seq<ActionModel<T>>,
    DecodeFailure,
> {
    match document {
        Document::List(items) => actions_of_items::<T>(items@),
        _ => Err(DecodeFailure::InvalidType("actions"@)),
    }
}

/// Reading stops at the first item that is in error.
pub proof fn lemma_actions_stop<T: Template>(items: Seq<Document>, count: int)
    requires
        0 <= count <= items.len(),
        actions_of_items::<T>(items.take(count)) is Err,
    ensures
        actions_of_items::<T>(items) == actions_of_items::<T>(items.take(count)),
    decreases items.len(),
{
    if count < items.len() {
        assert(items.drop_last().take(count) =~= items.take(count));
        lemma_actions_stop::<T>(items.drop_last(), count);
    } else {
        assert(items.take(count) =~= items);
    }
}

/// Reads the items of a list of actions.
fn decode_action_items<T: Template>(items: &Vec<Document>) -> (result: Result<
    Vec<ActionType<T>>,
    DecodeError,
>)
    ensures
        result is Ok ==> actions_of_items::<T>(items@) == Ok::<Seq<ActionModel<T>>, DecodeFailure>(
            action_models(result->Ok_0@),
        ),
        result is Err ==> actions_of_items::<T>(items@) == Err::<
            Seq<ActionModel<T>>,
            DecodeFailure,
        >(result->Err_0@),
{
    let mut actions: Vec<ActionType<T>> = Vec::new();
    let mut i: usize = 0;
    assert(items@.take(0) =~= Seq::empty());
    assert(action_models(actions@) =~= Seq::empty());
    while i < items.len()
        invariant
            i <= items.len(),
            actions_of_items::<T>(items@.take(i as int)) == Ok::<
                Seq<ActionModel<T>>,
                DecodeFailure,
            >(action_models(actions@)),
        decreases items.len() - i,
    {
        proof {
            assert(items@.take(i + 1).drop_last() =~= items@.take(i as int));
            assert(items@.take(i + 1).last() == items@[i as int]);
        }
        match decode_action::<T>(&items[i]) {
            Ok(action) => {
                let ghost before = actions@;
                actions.push(action);
                assert(action_models(actions@) =~= action_models(before).push(action@));
            },
            Err(error) => {
                proof {
                    lemma_actions_stop::<T>(items@, i + 1);
                }
                return Err(error);
            },
        }
        i += 1;
    }
    assert(items@.take(i as int) =~= items@);
    Ok(actions)
}

/// Reads a list of actions.
pub fn decode_actions<T: Template>(document: &Document) -> (result: Result<
    Vec<ActionType<T>>,
    DecodeError,
>)
    ensures
        result is Ok ==> actions_of::<T>(*document) == Ok::<Seq<ActionModel<T>>, DecodeFailure>(
            action_models(result->Ok_0@),
        ),
        result is Err ==> actions_of::<T>(*document) == Err::<Seq<ActionModel<T>>, DecodeFailure>(
            result->Err_0@,
        ),
{
    match document {
        Document::List(items) => decode_action_items(items),
        _ => Err(DecodeError::InvalidType("actions".to_owned())),
    }
}

/// The texts that the items of a list hold, in order.
pub open spec fn texts_of_items(items: Seq<Document>, field: Seq<char>) -> Result<
    Seq<Seq<char>>,
    DecodeFailure,
>
    decreases items.len(),
{
    if items.len() == 0 {
        Ok(Seq::empty())
    } else {
        match texts_of_items(items.drop_last(), field) {
            Ok(found) => match text_of(items.last(), field) {
                Ok(text) => Ok(found.push(text)),
                Err(error) => Err(error),
            },
            Err(error) => Err(error),
        }
    }
}

/// The texts that a document holds: a list of texts.
pub open spec fn texts_of(document: Document, field: Seq<char>) -> Result<
    Seq<Seq<char>>,
    DecodeFailure,
> {
    match document {
        Document::List(items) => texts_of_items(items@, field),
        _ => Err(DecodeFailure::InvalidType(field)),
    }
}

/// Reading stops at the first item that is in error.
pub proof fn lemma_texts_stop(items: Seq<Document>, field: Seq<char>, count: int)
    requires
        0 <= count <= items.len(),
        texts_of_items(items.take(count), field) is Err,
    ensures
        texts_of_items(items, field) == texts_of_items(items.take(count), field),
    decreases items.len(),
{
    if count < items.len() {
        assert(items.drop_last().take(count) =~= items.take(count));
        lemma_texts_stop(items.drop_last(), field, count);
    } else {
        assert(items.take(count) =~= items);
    }
}

/// Reads the items of a list of texts.
fn decode_text_items(items: &Vec<Document>, field: &str) -> (result: Result<
    Vec<String>,
    DecodeError,
>)
    ensures
        result is Ok ==> texts_of_items(items@, field@) == Ok::<Seq<Seq<char>>, DecodeFailure>(
            texts(result->Ok_0@),
        ),
        result is Err ==> texts_of_items(items@, field@) == Err::<Seq<Seq<char>>, DecodeFailure>(
            result->Err_0@,
        ),
{
    let mut found: Vec<String> = Vec::new();
    let mut i: usize = 0;
    assert(items@.take(0) =~= Seq::empty());
    assert(texts(found@) =~= Seq::empty());
    while i < items.len()
        invariant
            i <= items.len(),
            texts_of_items(items@.take(i as int), field@) == Ok::<Seq<Seq<char>>, DecodeFailure>(
                texts(found@),
            ),
        decreases items.len() - i,
    {
        proof {
            assert(items@.take(i + 1).drop_last() =~= items@.take(i as int));
            assert(items@.take(i + 1).last() == items@[i as int]);
        }
        match decode_text(&items[i], field) {
            Ok(text) => {
                let ghost before = found@;
                found.push(text);
                assert(texts(found@) =~= texts(before).push(text@));
            },
            Err(error) => {
                proof {
                    lemma_texts_stop(items@, field@, i + 1);
                }
                return Err(error);
            },
        }
        i += 1;
    }
    assert(items@.take(i as int) =~= items@);
    Ok(found)
}

/// Reads a list of texts, the value of `field`.
pub fn decode_texts(document: &Document, field: &str) -> (result: Result<Vec<String>, DecodeError>)
    ensures
        result is Ok ==> texts_of(*document, field@) == Ok::<Seq<Seq<char>>, DecodeFailure>(
            texts(result->Ok_0@),
        ),
        result is Err ==> texts_of(*document, field@) == Err::<Seq<Seq<char>>, DecodeFailure>(
            result->Err_0@,
        ),
{
    match document {
        Document::List(items) => decode_text_items(items, field),
        _ => Err(DecodeError::InvalidType(field.to_owned())),
    }
}

/// The largest number of events that a configuration can ask for.
pub const MAX_SIZE_LIMIT: u64 = 0xffff_ffff;

/// The number of events that a document holds: a whole number that fits 32
/// bits.
pub open spec fn max_size_of(document: Document) -> Result<u64, DecodeFailure> {
    match number_of(document, "max_size"@) {
        Ok(number) => if number <= MAX_SIZE_LIMIT {
            Ok(number)
        } else {
            Err(DecodeFailure::InvalidType("max_size"@))
        },
        Err(error) => Err(error),
    }
}

/// What is known of the conditions of a context while their table is
/// read.
pub struct ConditionsParts {
    pub timeout: Option<u64>,
    pub renew_timeout: Option<u64>,
    pub max_size: Option<u64>,
    pub first_opens: bool,
    pub last_closes: bool,
}

impl ConditionsParts {
    /// What is known before the first entry is read: the defaults.
    pub open spec fn start() -> ConditionsParts {
        ConditionsParts {
            timeout: None,
            renew_timeout: None,
            max_size: None,
            first_opens: false,
            last_closes: false,
        }
    }

    /// What is known after one more entry was read.
    pub open spec fn field(self, key: Document, value: Document) -> Result<
        ConditionsParts,
        DecodeFailure,
    > {
        if is_key(key, "timeout"@) {
            match number_of(value, "timeout"@) {
                Ok(number) => Ok(ConditionsParts { timeout: Some(number), ..self }),
                Err(error) => Err(error),
            }
        } else if is_key(key, "renew_timeout"@) {
            match number_of(value, "renew_timeout"@) {
                Ok(number) => Ok(ConditionsParts { renew_timeout: Some(number), ..self }),
                Err(error) => Err(error),
            }
        } else if is_key(key, "max_size"@) {
            match max_size_of(value) {
                Ok(number) => Ok(ConditionsParts { max_size: Some(number), ..self }),
                Err(error) => Err(error),
            }
        } else if is_key(key, "first_opens"@) {
            match flag_of(value, "first_opens"@) {
                Ok(flag) => Ok(ConditionsParts { first_opens: flag, ..self }),
                Err(error) => Err(error),
            }
        } else if is_key(key, "last_closes"@) {
            match flag_of(value, "last_closes"@) {
                Ok(flag) => Ok(ConditionsParts { last_closes: flag, ..self }),
                Err(error) => Err(error),
            }
        } else {
            Err(DecodeFailure::UnexpectedField(key_text(key)))
        }
    }

    /// What is known after the entries were read.
    pub open spec fn fields(entries: Seq<(Document, Document)>) -> Result<
        ConditionsParts,
        DecodeFailure,
    >
        decreases entries.len(),
    {
        if entries.len() == 0 {
            Ok(Self::start())
        } else {
            match Self::fields(entries.drop_last()) {
                Ok(parts) => parts.field(entries.last().0, entries.last().1),
                Err(error) => Err(error),
            }
        }
    }

    /// The conditions that the parts make up: the timeout must be there.
    /// The patterns of a context are not part of this table.
    pub open spec fn finish(self) -> Result<ConditionsModel, DecodeFailure> {
        if self.timeout is None {
            Err(DecodeFailure::MissingField("timeout"@))
        } else {
            Ok(
                ConditionsModel {
                    timeout: self.timeout->0 as nat,
                    renew_timeout: match self.renew_timeout {
                        Some(r) => Some(r as nat),
                        None => None,
                    },
                    max_size: match self.max_size {
                        Some(m) => Some(m as nat),
                        None => None,
                    },
                    first_opens: self.first_opens,
                    last_closes: self.last_closes,
                    patterns: Seq::empty(),
                },
            )
        }
    }
}

/// The conditions that a document holds: a table with the field `timeout`
/// and the optional fields `renew_timeout`, `max_size`, `first_opens` and
/// `last_closes`. Durations are in milliseconds.
pub open spec fn conditions_of(document: Document) -> Result<ConditionsModel, DecodeFailure> {
    match document {
        Document::Table(entries) => match ConditionsParts::fields(entries@) {
            Ok(parts) => parts.finish(),
            Err(error) => Err(error),
        },
        _ => Err(DecodeFailure::InvalidType("conditions"@)),
    }
}

/// Reading stops at the first entry that is in error.
pub proof fn lemma_conditions_stop(entries: Seq<(Document, Document)>, count: int)
    requires
        0 <= count <= entries.len(),
        ConditionsParts::fields(entries.take(count)) is Err,
    ensures
        ConditionsParts::fields(entries) == ConditionsParts::fields(entries.take(count)),
    decreases entries.len(),
{
    if count < entries.len() {
        assert(entries.drop_last().take(count) =~= entries.take(count));
        lemma_conditions_stop(entries.drop_last(), count);
    } else {
        assert(entries.take(count) =~= entries);
    }
}

/// Reads the number of events at which a context closes.
fn decode_max_size(document: &Document) -> (result: Result<u64, DecodeError>)
    ensures
        result is Ok ==> max_size_of(*document) == Ok::<u64, DecodeFailure>(result->Ok_0),
        result is Err ==> max_size_of(*document) == Err::<u64, DecodeFailure>(result->Err_0@),
{
    match decode_number(document, "max_size") {
        Ok(number) => {
            if number <= MAX_SIZE_LIMIT {
                Ok(number)
            } else {
                Err(DecodeError::InvalidType("max_size".to_owned()))
            }
        },
        Err(error) => Err(error),
    }
}

/// Reads one entry of the table of conditions.
fn decode_conditions_field(parts: ConditionsParts, key: &Document, value: &Document) -> (result:
    Result<ConditionsParts, DecodeError>)
    ensures
        result is Ok ==> parts.field(*key, *value) == Ok::<ConditionsParts, DecodeFailure>(
            result->Ok_0,
        ),
        result is Err ==> parts.field(*key, *value) == Err::<ConditionsParts, DecodeFailure>(
            result->Err_0@,
        ),
{
    let mut parts = parts;
    if key_is(key, "timeout") {
        match decode_number(value, "timeout") {
            Ok(number) => {
                parts.timeout = Some(number);
                Ok(parts)
            },
            Err(error) => Err(error),
        }
    } else if key_is(key, "renew_timeout") {
        match decode_number(value, "renew_timeout") {
            Ok(number) => {
                parts.renew_timeout = Some(number);
                Ok(parts)
            },
            Err(error) => Err(error),
        }
    } else if key_is(key, "max_size") {
        match decode_max_size(value) {
            Ok(number) => {
                parts.max_size = Some(number);
                Ok(parts)
            },
            Err(error) => Err(error),
        }
    } else if key_is(key, "first_opens") {
        match decode_flag(value, "first_opens") {
            Ok(flag) => {
                parts.first_opens = flag;
                Ok(parts)
            },
            Err(error) => Err(error),
        }
    } else if key_is(key, "last_closes") {
        match decode_flag(value, "last_closes") {
            Ok(flag) => {
                parts.last_closes = flag;
                Ok(parts)
            },
            Err(error) => Err(error),
        }
    } else {
        Err(DecodeError::UnexpectedField(key_name(key)))
    }
}

/// Reads the entries of the table of conditions.
fn decode_conditions_fields(entries: &Vec<(Document, Document)>) -> (result: Result<
    ConditionsParts,
    DecodeError,
>)
    ensures
        result is Ok ==> ConditionsParts::fields(entries@) == Ok::<ConditionsParts, DecodeFailure>(
            result->Ok_0,
        ),
        result is Err ==> ConditionsParts::fields(entries@) == Err::<
            ConditionsParts,
            DecodeFailure,
        >(result->Err_0@),
{
    let mut parts = ConditionsParts {
        timeout: None,
        renew_timeout: None,
        max_size: None,
        first_opens: false,
        last_closes: false,
    };
    let mut i: usize = 0;
    assert(entries@.take(0) =~= Seq::empty());
    while i < entries.len()
        invariant
            i <= entries.len(),
            ConditionsParts::fields(entries@.take(i as int)) == Ok::<
                ConditionsParts,
                DecodeFailure,
            >(parts),
        decreases entries.len() - i,
    {
        proof {
            assert(entries@.take(i + 1).drop_last() =~= entries@.take(i as int));
            assert(entries@.take(i + 1).last() == entries@[i as int]);
        }
        match decode_conditions_field(parts, &entries[i].0, &entries[i].1) {
            Ok(next) => {
                parts = next;
            },
            Err(error) => {
                proof {
                    lemma_conditions_stop(entries@, i + 1);
                }
                return Err(error);
            },
        }
        i += 1;
    }
    assert(entries@.take(i as int) =~= entries@);
    Ok(parts)
}

/// Reads the conditions of a context.
pub fn decode_conditions(document: &Document) -> (result: Result<Conditions, DecodeError>)
    ensures
        result is Ok ==> conditions_of(*document) == Ok::<ConditionsModel, DecodeFailure>(
            result->Ok_0@,
        ),
        result is Err ==> conditions_of(*document) == Err::<ConditionsModel, DecodeFailure>(
            result->Err_0@,
        ),
{
    match document {
        Document::Table(entries) => match decode_conditions_fields(entries) {
            Ok(parts) => match parts.timeout {
                Some(timeout) => {
                    let conditions = Conditions {
                        timeout,
                        renew_timeout: parts.renew_timeout,
                        max_size: match parts.max_size {
                            Some(m) => Some(m as usize),
                            None => None,
                        },
                        first_opens: parts.first_opens,
                        last_closes: parts.last_closes,
                        patterns: Vec::new(),
                    };
                    proof {
                        assert(conditions@.patterns =~= Seq::empty());
                        assert(ConditionsParts::fields(entries@) is Ok);
                        if parts.max_size is Some {
                            assert(parts.max_size->0 <= MAX_SIZE_LIMIT) by {
                                lemma_max_size_fits(entries@);
                            }
                        }
                    }
                    Ok(conditions)
                },
                None => Err(DecodeError::MissingField("timeout".to_owned())),
            },
            Err(error) => Err(error),
        },
        _ => Err(DecodeError::InvalidType("conditions".to_owned())),
    }
}

/// A number of events that was read fits 32 bits.
pub proof fn lemma_max_size_fits(entries: Seq<(Document, Document)>)
    requires
        ConditionsParts::fields(entries) is Ok,
    ensures
        ConditionsParts::fields(entries)->Ok_0.max_size is Some ==> ConditionsParts::fields(
            entries,
        )->Ok_0.max_size->0 <= MAX_SIZE_LIMIT,
    decreases entries.len(),
{
    if entries.len() > 0 {
        lemma_max_size_fits(entries.drop_last());
    }
}

/// The UUID that a document holds: a text that denotes one.
pub open spec fn uuid_of(document: Document) -> Result<u128, DecodeFailure> {
    match text_of(document, "uuid"@) {
        Ok(text) => match parsed_uuid(text) {
            Some(uuid) => Ok(uuid),
            None => Err(DecodeFailure::InvalidUuid(text)),
        },
        Err(error) => Err(error),
    }
}

/// Reads the UUID of a context.
pub fn decode_uuid(document: &Document) -> (result: Result<u128, DecodeError>)
    ensures
        result is Ok ==> uuid_of(*document) == Ok::<u128, DecodeFailure>(result->Ok_0),
        result is Err ==> uuid_of(*document) == Err::<u128, DecodeFailure>(result->Err_0@),
{
    match decode_text(document, "uuid") {
        Ok(text) => match parse_uuid(text.as_str()) {
            Some(uuid) => Ok(uuid),
            None => Err(DecodeError::InvalidUuid(text)),
        },
        Err(error) => Err(error),
    }
}

/// What is known of the configuration of a context while its table is
/// read.
pub struct ContextParts<T> {
    pub name: Option<Seq<char>>,
    pub uuid: Option<u128>,
    pub patterns: Option<Seq<Seq<char>>>,
    pub conditions: Option<ConditionsModel>,
    pub actions: Option<Seq<ActionModel<T>>>,
    pub context_id: Option<Seq<Seq<char>>>,
}

impl<T: Template> ContextParts<T> {
    /// What is known before the first entry is read.
    pub open spec fn start() -> ContextParts<T> {
        ContextParts {
            name: None,
            uuid: None,
            patterns: None,
            conditions: None,
            actions: None,
            context_id: None,
        }
    }

    /// What is known after one more entry was read.
    pub open spec fn field(self, key: Document, value: Document) -> Result<
        ContextParts<T>,
        DecodeFailure,
    > {
        if is_key(key, "name"@) {
            match text_of(value, "name"@) {
                Ok(text) => Ok(ContextParts { name: Some(text), ..self }),
                Err(error) => Err(error),
            }
        } else if is_key(key, "uuid"@) {
            match uuid_of(value) {
                Ok(uuid) => Ok(ContextParts { uuid: Some(uuid), ..self }),
                Err(error) => Err(error),
            }
        } else if is_key(key, "patterns"@) {
            match texts_of(value, "patterns"@) {
                Ok(patterns) => Ok(ContextParts { patterns: Some(patterns), ..self }),
                Err(error) => Err(error),
            }
        } else if is_key(key, "conditions"@) {
            match conditions_of(value) {
                Ok(conditions) => Ok(ContextParts { conditions: Some(conditions), ..self }),
                Err(error) => Err(error),
            }
        } else if is_key(key, "actions"@) {
            match actions_of::<T>(value) {
                Ok(actions) => Ok(ContextParts { actions: Some(actions), ..self }),
                Err(error) => Err(error),
            }
        } else if is_key(key, "context_id"@) {
            match texts_of(value, "context_id"@) {
                Ok(fields) => Ok(ContextParts { context_id: Some(fields), ..self }),
                Err(error) => Err(error),
            }
        } else {
            Err(DecodeFailure::UnexpectedField(key_text(key)))
        }
    }

    /// What is known after the entries were read.
    pub open spec fn fields(entries: Seq<(Document, Document)>) -> Result<
        ContextParts<T>,
        DecodeFailure,
    >
        decreases entries.len(),
    {
        if entries.len() == 0 {
            Ok(Self::start())
        } else {
            match Self::fields(entries.drop_last()) {
                Ok(parts) => parts.field(entries.last().0, entries.last().1),
                Err(error) => Err(error),
            }
        }
    }

    /// The configuration that the parts make up: the uuid, the conditions
    /// and the actions must be there.
    pub open spec fn finish(self) -> Result<ContextConfigModel<T>, DecodeFailure> {
        if self.uuid is None {
            Err(DecodeFailure::MissingField("uuid"@))
        } else if self.conditions is None {
            Err(DecodeFailure::MissingField("conditions"@))
        } else if self.actions is None {
            Err(DecodeFailure::MissingField("actions"@))
        } else {
            Ok(
                ContextConfigModel {
                    name: self.name,
                    uuid: self.uuid->0,
                    conditions: self.conditions->0,
                    context_id: self.context_id,
                    actions: self.actions->0,
                    patterns: match self.patterns {
                        Some(patterns) => patterns,
                        None => Seq::empty(),
                    },
                },
            )
        }
    }
}

/// The configuration of a context that a document holds: a table with the
/// fields `uuid`, `conditions` and `actions` and the optional fields
/// `name`, `patterns` and `context_id`.
pub open spec fn context_of<T: Template>(document: Document) -> Result<
    ContextConfigModel<T>,
    DecodeFailure,
> {
    match document {
        Document::Table(entries) => match ContextParts::<T>::fields(entries@) {
            Ok(parts) => parts.finish(),
            Err(error) => Err(error),
        },
        _ => Err(DecodeFailure::InvalidType("context"@)),
    }
}

/// Reading stops at the first entry that is in error.
pub proof fn lemma_context_stops<T: Template>(entries: Seq<(Document, Document)>, count: int)
    requires
        0 <= count <= entries.len(),
        ContextParts::<T>::fields(entries.take(count)) is Err,
    ensures
        ContextParts::<T>::fields(entries) == ContextParts::<T>::fields(entries.take(count)),
    decreases entries.len(),
{
    if count < entries.len() {
        assert(entries.drop_last().take(count) =~= entries.take(count));
        lemma_context_stops::<T>(entries.drop_last(), count);
    } else {
        assert(entries.take(count) =~= entries);
    }
}

/// The fields of the configuration of a context, as far as they were read.
struct ContextFields<T: Template> {
    name: Option<String>,
    uuid: Option<u128>,
    patterns: Option<Vec<String>>,
    conditions: Option<Conditions>,
    actions: Option<Vec<ActionType<T>>>,
    context_id: Option<Vec<String>>,
}

impl<T: Template> View for ContextFields<T> {
    type V = ContextParts<T>;

    closed spec fn view(&self) -> ContextParts<T> {
        ContextParts {
            name: opt_string(self.name),
            uuid: self.uuid,
            patterns: match self.patterns {
                Some(patterns) => Some(texts(patterns@)),
                None => None,
            },
            conditions: match self.conditions {
                Some(conditions) => Some(conditions@),
                None => None,
            },
            actions: match self.actions {
                Some(actions) => Some(action_models(actions@)),
                None => None,
            },
            context_id: match self.context_id {
                Some(fields) => Some(texts(fields@)),
                None => None,
            },
        }
    }
}

impl<T: Template> ContextFields<T> {
    /// Reads one entry.
    fn field(self, key: &Document, value: &Document) -> (result: Result<ContextFields<T>, DecodeError>)
        ensures
            result is Ok ==> self@.field(*key, *value) == Ok::<ContextParts<T>, DecodeFailure>(
                result->Ok_0@,
            ),
            result is Err ==> self@.field(*key, *value) == Err::<ContextParts<T>, DecodeFailure>(
                result->Err_0@,
            ),
    {
        let mut fields = self;
        if key_is(key, "name") {
            match decode_text(value, "name") {
                Ok(text) => {
                    fields.name = Some(text);
                    Ok(fields)
                },
                Err(error) => Err(error),
            }
        } else if key_is(key, "uuid") {
            match decode_uuid(value) {
                Ok(uuid) => {
                    fields.uuid = Some(uuid);
                    Ok(fields)
                },
                Err(error) => Err(error),
            }
        } else if key_is(key, "patterns") {
            match decode_texts(value, "patterns") {
                Ok(patterns) => {
                    fields.patterns = Some(patterns);
                    Ok(fields)
                },
                Err(error) => Err(error),
            }
        } else if key_is(key, "conditions") {
            match decode_conditions(value) {
                Ok(conditions) => {
                    fields.conditions = Some(conditions);
                    Ok(fields)
                },
                Err(error) => Err(error),
            }
        } else if key_is(key, "actions") {
            match decode_actions::<T>(value) {
                Ok(actions) => {
                    fields.actions = Some(actions);
                    Ok(fields)
                },
                Err(error) => Err(error),
            }
        } else if key_is(key, "context_id") {
            match decode_texts(value, "context_id") {
                Ok(context_id) => {
                    fields.context_id = Some(context_id);
                    Ok(fields)
                },
                Err(error) => Err(error),
            }
        } else {
            Err(DecodeError::UnexpectedField(key_name(key)))
        }
    }

    /// Reads the entries of a table.
    fn read(entries: &Vec<(Document, Document)>) -> (result: Result<ContextFields<T>, DecodeError>)
        ensures
            result is Ok ==> ContextParts::<T>::fields(entries@) == Ok::<
                ContextParts<T>,
                DecodeFailure,
            >(result->Ok_0@),
            result is Err ==> ContextParts::<T>::fields(entries@) == Err::<
                ContextParts<T>,
                DecodeFailure,
            >(result->Err_0@),
    {
        let mut fields = ContextFields {
            name: None,
            uuid: None,
            patterns: None,
            conditions: None,
            actions: None,
            context_id: None,
        };
        let mut i: usize = 0;
        assert(entries@.take(0) =~= Seq::empty());
        while i < entries.len()
            invariant
                i <= entries.len(),
                ContextParts::<T>::fields(entries@.take(i as int)) == Ok::<
                    ContextParts<T>,
                    DecodeFailure,
                >(fields@),
            decreases entries.len() - i,
        {
            proof {
                assert(entries@.take(i + 1).drop_last() =~= entries@.take(i as int));
                assert(entries@.take(i + 1).last() == entries@[i as int]);
            }
            match fields.field(&entries[i].0, &entries[i].1) {
                Ok(next) => {
                    fields = next;
                },
                Err(error) => {
                    proof {
                        lemma_context_stops::<T>(entries@, i + 1);
                    }
                    return Err(error);
                },
            }
            i += 1;
        }
        assert(entries@.take(i as int) =~= entries@);
        Ok(fields)
    }

    /// Builds the configuration from the fields.
    fn finish(self) -> (result: Result<ContextConfig<T>, DecodeError>)
        ensures
            result is Ok ==> self@.finish() == Ok::<ContextConfigModel<T>, DecodeFailure>(
                result->Ok_0@,
            ),
            result is Err ==> self@.finish() == Err::<ContextConfigModel<T>, DecodeFailure>(
                result->Err_0@,
            ),
    {
        let uuid = match self.uuid {
            Some(uuid) => uuid,
            None => {
                return Err(DecodeError::MissingField("uuid".to_owned()));
            },
        };
        let conditions = match self.conditions {
            Some(conditions) => conditions,
            None => {
                return Err(DecodeError::MissingField("conditions".to_owned()));
            },
        };
        let actions = match self.actions {
            Some(actions) => actions,
            None => {
                return Err(DecodeError::MissingField("actions".to_owned()));
            },
        };
        let patterns: Vec<String> = match self.patterns {
            Some(patterns) => patterns,
            None => Vec::new(),
        };
        proof {
            if self.patterns is None {
                assert(texts(patterns@) =~= Seq::empty());
            }
        }
        Ok(
            ContextConfig {
                name: self.name,
                uuid,
                conditions,
                context_id: self.context_id,
                actions,
                patterns,
            },
        )
    }
}

/// Reads the configuration of a context.
pub fn decode_context<T: Template>(document: &Document) -> (result: Result<
    ContextConfig<T>,
    DecodeError,
>)
    ensures
        result is Ok ==> context_of::<T>(*document) == Ok::<ContextConfigModel<T>, DecodeFailure>(
            result->Ok_0@,
        ),
        result is Err ==> context_of::<T>(*document) == Err::<ContextConfigModel<T>, DecodeFailure>(
            result->Err_0@,
        ),
{
    match document {
        Document::Table(entries) => match ContextFields::<T>::read(entries) {
            Ok(fields) => fields.finish(),
            Err(error) => Err(error),
        },
        _ => Err(DecodeError::InvalidType("context".to_owned())),
    }
}

/// The configurations that the items of a list hold, in order.
pub open spec fn contexts_of_items<T: Template>(items: Seq<Document>) -> Result<
    Seq<ContextConfigModel<T>>,
    DecodeFailure,
>
    decreases items.len(),
{
    if items.len() == 0 {
        Ok(Seq::empty())
    } else {
        match contexts_of_items::<T>(items.drop_last()) {
            Ok(configs) => match context_of::<T>(items.last()) {
                Ok(config) => Ok(configs.push(config)),
                Err(error) => Err(error),
            },
            Err(error) => Err(error),
        }
    }
}

/// The configurations that a document holds: a list of contexts.
pub open spec fn contexts_of<T: Template>(document: Document) -> Result<
    Seq<ContextConfigModel<T>>,
    DecodeFailure,
> {
    match document {
        Document::List(items) => contexts_of_items::<T>(items@),
        _ => Err(DecodeFailure::InvalidType("contexts"@)),
    }
}

/// The configurations that a parsed text holds; a text that did not parse
/// holds none.
pub open spec fn contexts_in<T: Template>(parsed: Option<Document>) -> Result<
    Seq<ContextConfigModel<T>>,
    DecodeFailure,
> {
    match parsed {
        Some(document) => contexts_of::<T>(document),
        None => Err(DecodeFailure::Syntax),
    }
}

/// Reading stops at the first item that is in error.
pub proof fn lemma_contexts_stop<T: Template>(items: Seq<Document>, count: int)
    requires
        0 <= count <= items.len(),
        contexts_of_items::<T>(items.take(count)) is Err,
    ensures
        contexts_of_items::<T>(items) == contexts_of_items::<T>(items.take(count)),
    decreases items.len(),
{
    if count < items.len() {
        assert(items.drop_last().take(count) =~= items.take(count));
        lemma_contexts_stop::<T>(items.drop_last(), count);
    } else {
        assert(items.take(count) =~= items);
    }
}

/// Reads the items of a list of contexts.
fn decode_context_items<T: Template>(items: &Vec<Document>) -> (result: Result<
    Vec<ContextConfig<T>>,
    DecodeError,
>)
    ensures
        result is Ok ==> contexts_of_items::<T>(items@) == Ok::<
            Seq<ContextConfigModel<T>>,
            DecodeFailure,
        >(config_models(result->Ok_0@)),
        result is Err ==> contexts_of_items::<T>(items@) == Err::<
            Seq<ContextConfigModel<T>>,
            DecodeFailure,
        >(result->Err_0@),
{
    let mut configs: Vec<ContextConfig<T>> = Vec::new();
    let mut i: usize = 0;
    assert(items@.take(0) =~= Seq::empty());
    assert(config_models(configs@) =~= Seq::empty());
    while i < items.len()
        invariant
            i <= items.len(),
            contexts_of_items::<T>(items@.take(i as int)) == Ok::<
                Seq<ContextConfigModel<T>>,
                DecodeFailure,
            >(config_models(configs@)),
        decreases items.len() - i,
    {
        proof {
            assert(items@.take(i + 1).drop_last() =~= items@.take(i as int));
            assert(items@.take(i + 1).last() == items@[i as int]);
        }
        match decode_context::<T>(&items[i]) {
            Ok(config) => {
                let ghost before = configs@;
                configs.push(config);
                assert(config_models(configs@) =~= config_models(before).push(config@));
            },
            Err(error) => {
                proof {
                    lemma_contexts_stop::<T>(items@, i + 1);
                }
                return Err(error);
            },
        }
        i += 1;
    }
    assert(items@.take(i as int) =~= items@);
    Ok(configs)
}

/// Reads a list of contexts.
pub fn decode_contexts<T: Template>(document: &Document) -> (result: Result<
    Vec<ContextConfig<T>>,
    DecodeError,
>)
    ensures
        result is Ok ==> contexts_of::<T>(*document) == Ok::<
            Seq<ContextConfigModel<T>>,
            DecodeFailure,
        >(config_models(result->Ok_0@)),
        result is Err ==> contexts_of::<T>(*document) == Err::<
            Seq<ContextConfigModel<T>>,
            DecodeFailure,
        >(result->Err_0@),
{
    match document {
        Document::List(items) => decode_context_items(items),
        _ => Err(DecodeError::InvalidType("contexts".to_owned())),
    }
}

impl Document {
    /// Parses a JSON text.
    pub fn from_json(text: &str) -> (result: Result<Document, DecodeError>)
        ensures
            result is Ok ==> json_document(text@) == Some(result->Ok_0),
            result is Err ==> json_document(text@) is None && result->Err_0@
                == DecodeFailure::Syntax,
    {
        match parse_json(text) {
            Ok(document) => Ok(document),
            Err(error) => Err(DecodeError::Json(error)),
        }
    }

    /// Parses a YAML text.
    pub fn from_yaml(text: &str) -> (result: Result<Document, DecodeError>)
        ensures
            result is Ok ==> yaml_document(text@) == Some(result->Ok_0),
            result is Err ==> yaml_document(text@) is None && result->Err_0@
                == DecodeFailure::Syntax,
    {
        match parse_yaml(text) {
            Ok(document) => Ok(document),
            Err(error) => Err(DecodeError::Yaml(error)),
        }
    }
}

/// Reads the contexts that a JSON text configures.
pub fn contexts_from_json<T: Template>(text: &str) -> (result: Result<
    Vec<ContextConfig<T>>,
    DecodeError,
>)
    ensures
        result is Ok ==> contexts_in::<T>(json_document(text@)) == Ok::<
            Seq<ContextConfigModel<T>>,
            DecodeFailure,
        >(config_models(result->Ok_0@)),
        result is Err ==> contexts_in::<T>(json_document(text@)) == Err::<
            Seq<ContextConfigModel<T>>,
            DecodeFailure,
        >(result->Err_0@),
{
    match Document::from_json(text) {
        Ok(document) => decode_contexts(&document),
        Err(error) => Err(error),
    }
}

/// Reads the contexts that a YAML text configures.
pub fn contexts_from_yaml<T: Template>(text: &str) -> (result: Result<
    Vec<ContextConfig<T>>,
    DecodeError,
>)
    ensures
        result is Ok ==> contexts_in::<T>(yaml_document(text@)) == Ok::<
            Seq<ContextConfigModel<T>>,
            DecodeFailure,
        >(config_models(result->Ok_0@)),
        result is Err ==> contexts_in::<T>(yaml_document(text@)) == Err::<
            Seq<ContextConfigModel<T>>,
            DecodeFailure,
        >(result->Err_0@),
{
    match Document::from_yaml(text) {
        Ok(document) => decode_contexts(&document),
        Err(error) => Err(error),
    }
}

} // verus!
