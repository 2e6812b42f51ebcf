use correlation::config::action::message::{InjectMode, MessageAction, MessageActionBuilder};
use correlation::config::action::{ActionType, ExecCondition};
use correlation::config::decode::{
    contexts_from_json, contexts_from_yaml, decode_action, decode_conditions, decode_context,
    decode_exec_condition, decode_inject_mode, decode_message_action, DecodeError,
};
use correlation::config::document::Document;
use correlation::config::ContextConfig;
use correlation::identifier::hyphenated_of;
use correlation::template::TemplatableString;
use correlation::test_utils::MockTemplate;

const JSON_CONFIG: &str = r#"
      [
        {
          "name": "CONTEXT_NAME_1",
          "uuid": "185e96da-c00e-454b-b4fe-9d0a14a86335",
          "patterns": [
            "p1",
            "p2",
            "p3"
          ],
          "conditions": {
            "timeout": 100,
            "first_opens": true
          },
          "actions": [
            {
              "message": {
                  "uuid": "uuid1",
                  "when": {
                    "on_opened": "true",
                    "on_closed": "true"
                  },
                  "message": "message_1"
              }
            }
          ]
        },
        {
          "name": "CONTEXT_NAME_2",
          "uuid": "285e96da-c00e-454b-b4fe-9d0a14a86335",
          "conditions": {
            "timeout": 10000,
            "max_size": 5
          },
          "actions": [
            {
              "message": {
                  "uuid": "uuid1",
                  "message": "message_2"
              }
            },
            {
              "message": {
                  "uuid": "uuid2",
                  "message": "message_2"
              }
            }
          ]
        },
        {
          "name": "CONTEXT_NAME_3",
          "uuid": "385e96da-c00e-454b-b4fe-9d0a14a86335",
          "patterns": [
            "p1"
          ],
          "conditions": {
            "timeout": 100
          },
          "actions": [
            {
              "message": {
                  "uuid": "uuid2",
                  "message": "message_3"
              }
            }
          ]
        }
      ]
    "#;

fn json(text: &str) -> Document {
    Document::from_json(text).expect("the text should be JSON")
}

fn assert_message_action_eq(
    expected: &MessageAction<MockTemplate>,
    actual: &MessageAction<MockTemplate>,
) {
    assert_eq!(expected.uuid(), actual.uuid());
    assert_eq!(expected.name(), actual.name());
    assert_eq!(expected.message(), actual.message());
}

fn literal_values(action: &MessageAction<MockTemplate>) -> Vec<(String, String)> {
    let mut values = Vec::new();
    for (key, value) in action.values() {
        match value {
            TemplatableString::Literal(text) => values.push((key.clone(), text.clone())),
            TemplatableString::Template(_) => panic!("a decoded value should be a literal"),
        }
    }
    values
}

#[test]
fn test_given_action_when_it_is_deserialized_then_we_get_the_right_result() {
    let text = r#"
        {
            "message": {
                "uuid": "uuid1",
                "message": "message"
            }
        }
    "#;

    let result = decode_action::<MockTemplate>(&json(text));
    let action = result.expect("Failed to deserialize a valid ActionType");
    match action {
        ActionType::Message(message) => {
            assert_eq!("uuid1", message.uuid());
        }
    }
}

#[test]
fn test_given_unknown_action_when_it_is_deserialized_then_we_get_an_error() {
    let text = r#"{ "unknown": {} }"#;
    let result = decode_action::<MockTemplate>(&json(text));
    let _ = result.err().expect("Successfully deserialized an unknown action");
}

#[test]
fn test_given_filled_exec_condition_when_it_is_deserialized_then_it_is_populated_with_the_specified_values(
) {
    let text = r#"
        {
            "on_opened": true,
            "on_closed": false
        }
    "#;

    let expected = ExecCondition {
        on_closed: false,
        on_opened: true,
    };
    let result = decode_exec_condition(&json(text));
    println!("{:?}", &result);
    let cond = result.expect("Failed to deserialize a valid ExecCondition");
    assert_eq!(expected, cond);
}

#[test]
fn test_given_exec_condition_when_it_contains_an_unknown_key_then_the_deserialization_fails() {
    let text = r#"{ "unknown": true }"#;
    let result = decode_exec_condition(&json(text));
    println!("{:?}", &result);
    let _ = result.err().expect("Failed to deserialize a valid ExecCondition");
}

#[test]
fn test_given_filled_exec_condition_when_it_is_deserialized_then_its_missing_fields_are_populated_with_default_values(
) {
    let text = r#"
        {
        }
    "#;

    let expected: ExecCondition = Default::default();
    let result = decode_exec_condition(&json(text));
    println!("{:?}", &result);
    let cond = result.expect("Failed to deserialize a valid ExecCondition");
    assert_eq!(expected, cond);
}

#[test]
fn test_given_message_as_a_json_string_when_it_is_deserialized_then_we_get_the_expected_message() {
    let text = r#"
        {
          "uuid": "UUID",
          "name": "NAME",
          "message": "message",
          "values": {
            "key1": "value1",
            "key2": "value2"
          }
        }
        "#;

    let expected_message = MessageActionBuilder::new("UUID", "message")
        .name(Some("NAME"))
        .pair("key1", "value1")
        .pair("key2", "value2")
        .build();
    let result = decode_message_action::<MockTemplate>(&json(text));
    let message = result.expect("Failed to deserialize a valid MessageAction object");
    assert_message_action_eq(&expected_message, &message);
    assert_eq!(literal_values(&expected_message), literal_values(&message));
}

#[test]
fn test_given_message_as_a_json_string_when_only_the_required_fields_are_present_then_we_can_deserialize_the_message(
) {
    let text = r#"
        {
          "uuid": "UUID",
          "message": "message"
        }
        "#;

    let expected_message = MessageActionBuilder::new("UUID", "message").build();
    let result = decode_message_action::<MockTemplate>(&json(text));
    let message = result.expect("Failed to deserialize a valid MessageAction object");
    assert_message_action_eq(&expected_message, &message);
    assert_eq!(&ExecCondition::default(), message.when());
    assert_eq!(&InjectMode::Log, message.inject_mode());
    assert!(message.values().is_empty());
    assert_eq!(None, message.name());
}

#[test]
fn test_given_message_as_a_json_string_when_one_of_the_required_fields_are_not_present_then_we_get_error(
) {
    let text = r#"
        {
        }
        "#;

    let result = decode_message_action::<MockTemplate>(&json(text));
    let _ = result.err().expect("Successfully deserialized an invalid MessageAction object");
}

fn decode_inject_modes(text: &str) -> Result<Vec<InjectMode>, DecodeError> {
    match json(text) {
        Document::List(items) => items.iter().map(decode_inject_mode).collect(),
        other => panic!("expected a list, got {:?}", other),
    }
}

#[test]
fn test_given_inject_modes_when_they_are_deserialized_then_we_get_the_right_result() {
    let text = r#"
        ["forward", "log", "loopback", "log"]
        "#;
    let expected = vec![
        InjectMode::Forward,
        InjectMode::Log,
        InjectMode::Loopback,
        InjectMode::Log,
    ];

    let result = decode_inject_modes(text);
    println!("{:?}", &result);
    let array = result.expect("Failed to deserialize a valid array of inject modes");
    assert_eq!(&expected, &array);
}

#[test]
fn test_given_invalid_inject_mode_when_it_is_deserialized_then_we_get_the_right_result() {
    let text = r#"
        ["invalid inject mode", "log"]
        "#;

    let result = decode_inject_modes(text);
    println!("{:?}", &result);
    let _ = result.err().expect("Successfully deserialized an invalid inject mode");
}

#[test]
fn test_given_message_when_it_contains_inject_mode_then_it_can_be_deserialized() {
    let text = r#"
        {
          "uuid": "UUID",
          "message": "message",
          "inject_mode": "forward"
        }
        "#;

    let expected_message = MessageActionBuilder::new("UUID", "message")
        .inject_mode(InjectMode::Forward)
        .build();
    let result = decode_message_action::<MockTemplate>(&json(text));
    let message = result.expect("Failed to deserialize a valid MessageAction object");
    assert_message_action_eq(&expected_message, &message);
    assert_eq!(expected_message.inject_mode(), message.inject_mode());
}

#[test]
fn test_given_message_is_deserialized_when_it_contains_an_unexpected_field_then_an_error_is_returned(
) {
    let text = r#"{ "unexpected": "UUID" }"#;
    let result = decode_message_action::<MockTemplate>(&json(text));
    let _ = result.err().unwrap();
}

#[test]
fn test_given_message_without_message_field_when_it_is_deserialized_then_an_error_is_returned() {
    let text = r#"{ "uuid": "missing_msg" }"#;
    let result = decode_message_action::<MockTemplate>(&json(text));
    let _ = result.err().unwrap();
}

#[test]
fn test_given_correlator_when_it_is_built_from_json_then_we_get_the_expected_correlator() {
    let result = contexts_from_json::<MockTemplate>(JSON_CONFIG);
    let expected_name = "CONTEXT_NAME_1".to_owned();
    let expected_uuid = "185e96da-c00e-454b-b4fe-9d0a14a86335".to_owned();
    let mut contexts = result.expect("Failed to deserialize a config::ContextConfig from JSON");
    for i in &contexts {
        assert_eq!(true, i.name.is_some());
    }
    let context = contexts.remove(0);
    assert_eq!(Some(&expected_name), context.name.as_ref());
    assert_eq!(&expected_uuid, &hyphenated_of(context.uuid));
}

#[test]
fn decoded_contexts_hold_what_the_text_says() {
    let contexts: Vec<ContextConfig<MockTemplate>> = contexts_from_json(JSON_CONFIG).unwrap();
    assert_eq!(3, contexts.len());
    let first = &contexts[0];
    assert_eq!(0x185e96da_c00e_454b_b4fe_9d0a14a86335u128, first.uuid);
    assert_eq!(vec!["p1".to_owned(), "p2".to_owned(), "p3".to_owned()], first.patterns);
    assert_eq!(100, first.conditions.timeout);
    assert_eq!(None, first.conditions.renew_timeout);
    assert_eq!(None, first.conditions.max_size);
    assert!(first.conditions.first_opens);
    assert!(!first.conditions.last_closes);
    assert_eq!(1, first.actions.len());
    let ActionType::Message(action) = &first.actions[0];
    assert_eq!(&ExecCondition { on_opened: true, on_closed: true }, action.when());
    assert_eq!(Some("message_1"), action.message());
    let second = &contexts[1];
    assert!(second.patterns.is_empty());
    assert_eq!(10000, second.conditions.timeout);
    assert_eq!(Some(5), second.conditions.max_size);
    assert_eq!(2, second.actions.len());
    let ActionType::Message(action) = &second.actions[1];
    assert_eq!("uuid2", action.uuid());
    assert_eq!(&ExecCondition { on_opened: false, on_closed: false }, action.when());
}

#[test]
fn text_that_is_not_json_is_a_syntax_error() {
    let result = contexts_from_json::<MockTemplate>("[ {");
    assert!(matches!(result, Err(DecodeError::Json(_))));
    assert!(matches!(Document::from_json("nope"), Err(DecodeError::Json(_))));
}

#[test]
fn text_that_is_not_yaml_is_a_syntax_error() {
    let result = contexts_from_yaml::<MockTemplate>("- [ unclosed");
    assert!(matches!(result, Err(DecodeError::Yaml(_))));
}

#[test]
fn json_text_becomes_a_document() {
    let document = json(r#"{ "b": [1, -1, 1.5, null, true, "t"], "a": {} }"#);
    let entries = match document {
        Document::Table(entries) => entries,
        other => panic!("expected a table, got {:?}", other),
    };
    assert_eq!(2, entries.len());
    let list = entries
        .iter()
        .find(|(key, _)| matches!(key, Document::Text(text) if text == "b"))
        .map(|(_, value)| value)
        .expect("the key b should be there");
    match list {
        Document::List(items) => {
            assert_eq!(6, items.len());
            assert!(matches!(items[0], Document::Number(Some(1))));
            assert!(matches!(items[1], Document::Number(None)));
            assert!(matches!(items[2], Document::Number(None)));
            assert!(matches!(items[3], Document::Null));
            assert!(matches!(items[4], Document::Bool(true)));
            assert!(matches!(&items[5], Document::Text(text) if text == "t"));
        }
        other => panic!("expected a list, got {:?}", other),
    }
}

#[test]
fn yaml_text_becomes_a_document() {
    let document = Document::from_yaml("- name: x\n  size: 3\n- !tagged 7\n- [true, ~]\n").unwrap();
    let items = match document {
        Document::List(items) => items,
        other => panic!("expected a list, got {:?}", other),
    };
    assert_eq!(3, items.len());
    match &items[0] {
        Document::Table(entries) => {
            assert_eq!(2, entries.len());
            assert!(matches!(&entries[0].0, Document::Text(key) if key == "name"));
            assert!(matches!(&entries[0].1, Document::Text(value) if value == "x"));
            assert!(matches!(&entries[1].0, Document::Text(key) if key == "size"));
            assert!(matches!(&entries[1].1, Document::Number(Some(3))));
        }
        other => panic!("expected a table, got {:?}", other),
    }
    match &items[1] {
        Document::Tagged(tag, value) => {
            assert_eq!("!tagged", tag);
            assert!(matches!(**value, Document::Number(Some(7))));
        }
        other => panic!("expected a tagged value, got {:?}", other),
    }
    match &items[2] {
        Document::List(inner) => {
            assert!(matches!(inner[0], Document::Bool(true)));
            assert!(matches!(inner[1], Document::Null));
        }
        other => panic!("expected a list, got {:?}", other),
    }
}

#[test]
fn yaml_contexts_are_decoded_like_json_contexts() {
    let text = "
- name: CONTEXT
  uuid: 185e96da-c00e-454b-b4fe-9d0a14a86335
  patterns: [a, b]
  conditions:
    timeout: 100
    renew_timeout: 10
    max_size: 7
    last_closes: true
  actions:
    - message:
        uuid: out
        message: text
        inject_mode: loopback
        when:
          on_closed: true
";
    let contexts = contexts_from_yaml::<MockTemplate>(text).unwrap();
    assert_eq!(1, contexts.len());
    let context = &contexts[0];
    assert_eq!(Some("CONTEXT".to_owned()), context.name);
    assert_eq!(vec!["a".to_owned(), "b".to_owned()], context.patterns);
    assert_eq!(Some(10), context.conditions.renew_timeout);
    assert_eq!(Some(7), context.conditions.max_size);
    assert!(context.conditions.last_closes);
    assert!(!context.conditions.first_opens);
    let ActionType::Message(action) = &context.actions[0];
    assert_eq!(&InjectMode::Loopback, action.inject_mode());
    assert_eq!(&ExecCondition { on_opened: false, on_closed: true }, action.when());
}

#[test]
fn a_flag_must_be_a_boolean_or_its_text() {
    assert!(matches!(
        decode_exec_condition(&json(r#"{ "on_opened": "yes" }"#)),
        Err(DecodeError::InvalidType(field)) if field == "on_opened"
    ));
    assert!(matches!(
        decode_exec_condition(&json(r#"{ "on_closed": 1 }"#)),
        Err(DecodeError::InvalidType(field)) if field == "on_closed"
    ));
    assert!(matches!(
        decode_exec_condition(&json(r#"[]"#)),
        Err(DecodeError::InvalidType(field)) if field == "when"
    ));
    let condition = decode_exec_condition(&json(r#"{ "on_closed": "true", "on_opened": "false" }"#));
    assert_eq!(ExecCondition { on_opened: false, on_closed: true }, condition.unwrap());
}

#[test]
fn the_last_entry_of_a_repeated_key_wins() {
    let document = Document::Table(vec![
        (Document::Text("on_opened".to_owned()), Document::Bool(true)),
        (Document::Text("on_opened".to_owned()), Document::Bool(false)),
    ]);
    let condition = decode_exec_condition(&document).unwrap();
    assert_eq!(ExecCondition { on_opened: false, on_closed: false }, condition);
}

#[test]
fn decoding_reports_the_first_entry_in_error() {
    let document = Document::Table(vec![
        (Document::Text("uuid".to_owned()), Document::Text("u".to_owned())),
        (Document::Text("first".to_owned()), Document::Null),
        (Document::Text("second".to_owned()), Document::Null),
    ]);
    assert!(matches!(
        decode_message_action::<MockTemplate>(&document),
        Err(DecodeError::UnexpectedField(key)) if key == "first"
    ));
}

#[test]
fn a_message_action_names_its_missing_field() {
    assert!(matches!(
        decode_message_action::<MockTemplate>(&json(r#"{ "message": "m" }"#)),
        Err(DecodeError::MissingField(field)) if field == "uuid"
    ));
    assert!(matches!(
        decode_message_action::<MockTemplate>(&json(r#"{ "uuid": "u" }"#)),
        Err(DecodeError::MissingField(field)) if field == "message"
    ));
    assert!(matches!(
        decode_message_action::<MockTemplate>(&json(r#"{ "uuid": 1, "message": "m" }"#)),
        Err(DecodeError::InvalidType(field)) if field == "uuid"
    ));
    assert!(matches!(
        decode_message_action::<MockTemplate>(&json(r#"{ "uuid": "u", "message": "m", "values": { "k": 1 } }"#)),
        Err(DecodeError::InvalidType(field)) if field == "k"
    ));
    assert!(matches!(
        decode_message_action::<MockTemplate>(&json(r#"{ "uuid": "u", "message": "m", "inject_mode": "shout" }"#)),
        Err(DecodeError::UnknownVariant(name)) if name == "shout"
    ));
}

#[test]
fn an_action_is_a_table_with_one_known_key() {
    assert!(matches!(
        decode_action::<MockTemplate>(&json(r#"{ "unknown": {} }"#)),
        Err(DecodeError::UnknownVariant(name)) if name == "unknown"
    ));
    assert!(matches!(
        decode_action::<MockTemplate>(&json(r#"{}"#)),
        Err(DecodeError::InvalidType(what)) if what == "action"
    ));
    assert!(matches!(
        decode_action::<MockTemplate>(&json(
            r#"{ "message": { "uuid": "u", "message": "m" }, "other": 1 }"#
        )),
        Err(DecodeError::InvalidType(what)) if what == "action"
    ));
    assert!(matches!(
        decode_action::<MockTemplate>(&json(r#""message""#)),
        Err(DecodeError::InvalidType(what)) if what == "action"
    ));
}

#[test]
fn conditions_need_a_timeout() {
    assert!(matches!(
        decode_conditions(&json(r#"{ "first_opens": true }"#)),
        Err(DecodeError::MissingField(field)) if field == "timeout"
    ));
    assert!(matches!(
        decode_conditions(&json(r#"{ "timeout": -1 }"#)),
        Err(DecodeError::InvalidType(field)) if field == "timeout"
    ));
    assert!(matches!(
        decode_conditions(&json(r#"{ "timeout": 1, "max_size": 4294967296 }"#)),
        Err(DecodeError::InvalidType(field)) if field == "max_size"
    ));
    assert!(matches!(
        decode_conditions(&json(r#"{ "timeout": 1, "patterns": [] }"#)),
        Err(DecodeError::UnexpectedField(field)) if field == "patterns"
    ));
    let conditions = decode_conditions(&json(
        r#"{ "timeout": 18446744073709551615, "max_size": 4294967295, "renew_timeout": 0 }"#,
    ))
    .unwrap();
    assert_eq!(u64::MAX, conditions.timeout);
    assert_eq!(Some(4294967295), conditions.max_size);
    assert_eq!(Some(0), conditions.renew_timeout);
    assert!(conditions.patterns.is_empty());
}

#[test]
fn a_context_needs_its_uuid_its_conditions_and_its_actions() {
    let uuid = r#""uuid": "185e96da-c00e-454b-b4fe-9d0a14a86335""#;
    let conditions = r#""conditions": { "timeout": 1 }"#;
    let actions = r#""actions": []"#;
    let missing_uuid = format!("{{ {}, {} }}", conditions, actions);
    assert!(matches!(
        decode_context::<MockTemplate>(&json(&missing_uuid)),
        Err(DecodeError::MissingField(field)) if field == "uuid"
    ));
    let missing_conditions = format!("{{ {}, {} }}", uuid, actions);
    assert!(matches!(
        decode_context::<MockTemplate>(&json(&missing_conditions)),
        Err(DecodeError::MissingField(field)) if field == "conditions"
    ));
    let missing_actions = format!("{{ {}, {} }}", uuid, conditions);
    assert!(matches!(
        decode_context::<MockTemplate>(&json(&missing_actions)),
        Err(DecodeError::MissingField(field)) if field == "actions"
    ));
    let complete = format!(
        "{{ {}, {}, {}, \"context_id\": [\"user\"] }}",
        uuid, conditions, actions
    );
    let context = decode_context::<MockTemplate>(&json(&complete)).unwrap();
    assert_eq!(None, context.name);
    assert!(context.patterns.is_empty());
    assert_eq!(Some(vec!["user".to_owned()]), context.context_id);
    assert!(context.actions.is_empty());
}

#[test]
fn the_uuid_of_a_context_must_be_a_uuid() {
    let text = r#"{ "uuid": "not a uuid", "conditions": { "timeout": 1 }, "actions": [] }"#;
    assert!(matches!(
        decode_context::<MockTemplate>(&json(text)),
        Err(DecodeError::InvalidUuid(text)) if text == "not a uuid"
    ));
    let simple = r#"{ "uuid": "185e96dac00e454bb4fe9d0a14a86335", "conditions": { "timeout": 1 }, "actions": [] }"#;
    let context = decode_context::<MockTemplate>(&json(simple)).unwrap();
    assert_eq!(0x185e96da_c00e_454b_b4fe_9d0a14a86335u128, context.uuid);
}

#[test]
fn contexts_are_a_list() {
    assert!(matches!(
        contexts_from_json::<MockTemplate>("{}"),
        Err(DecodeError::InvalidType(what)) if what == "contexts"
    ));
    assert!(matches!(
        contexts_from_json::<MockTemplate>("[1]"),
        Err(DecodeError::InvalidType(what)) if what == "context"
    ));
    assert_eq!(0, contexts_from_json::<MockTemplate>("[]").unwrap().len());
}
