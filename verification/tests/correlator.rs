use correlation::conditions::ConditionsBuilder;
use correlation::config::action::message::{Alert, InjectMode, MessageActionBuilder};
use correlation::config::action::{ActionType, ExecCondition};
use correlation::config::decode::DecodeError;
use correlation::config::{ContextConfig, ContextConfigBuilder};
use correlation::context::context_map::ContextMap;
use correlation::correlator::factory::{ConfigFormat, CorrelatorFactory, FileExtension};
use correlation::correlator::{Correlator, CorrelatorError, PushError};
use correlation::dispatcher::request::Request;
use correlation::dispatcher::Response;
use correlation::event::Event;
use correlation::message::{Message, MessageBuilder};
use correlation::reactor::Reactor;
use correlation::test_utils::{MockTemplate, MockTemplateFactory};
use correlation::timer::TimerEvent;
use std::sync::Arc;

const CONTEXTS_JSON: &str = r#"
[
  {
    "name": "MAIL_SESSION",
    "uuid": "9cd7a5d6-d439-484d-95ac-7bf3bd055082",
    "patterns": ["LOGIN", "MAIL_READ", "LOGOUT"],
    "conditions": {
      "timeout": 100,
      "first_opens": true,
      "last_closes": true
    },
    "actions": [
      {
        "message": {
          "uuid": "4bbd15c4-ec2f-46ab-a8b4-9e1f0bd8a8b1",
          "name": "MAIL_SESSION_CLOSED",
          "message": "a mail session has ended",
          "values": { "user": "unknown" },
          "when": { "on_closed": true }
        }
      }
    ]
  }
]
"#;

const CONTEXTS_YAML: &str = "
- name: MAIL_SESSION
  uuid: 9cd7a5d6-d439-484d-95ac-7bf3bd055082
  patterns: [LOGIN, MAIL_READ, LOGOUT]
  conditions:
    timeout: 100
    first_opens: true
    last_closes: true
  actions:
    - message:
        uuid: 4bbd15c4-ec2f-46ab-a8b4-9e1f0bd8a8b1
        message: a mail session has ended
        when:
          on_closed: true
";

fn json() -> FileExtension {
    FileExtension::Text("json".to_owned())
}

fn yaml() -> FileExtension {
    FileExtension::Text("yaml".to_owned())
}

fn on_closed() -> ExecCondition {
    ExecCondition { on_opened: false, on_closed: true }
}

fn action(uuid: &str) -> ActionType<MockTemplate> {
    MessageActionBuilder::new(uuid, "m").when(on_closed()).build().into()
}

fn correlator(configs: Vec<ContextConfig<MockTemplate>>) -> Correlator<MockTemplate> {
    Correlator::new(ContextMap::from_configs(configs))
}

fn event(uuid: &str) -> Message {
    MessageBuilder::new(uuid, "message").build()
}

fn uuids(alerts: &[Alert<Message>]) -> Vec<&str> {
    alerts.iter().map(|alert| alert.message.uuid()).collect()
}

#[test]
fn test_given_correlator_when_messages_are_received_then_they_are_grouped_into_a_context_by_a_context_id(
) {
    let template_factory = MockTemplateFactory::compile_value();
    let mut correlator: Correlator<MockTemplate> =
        CorrelatorFactory::from_path(&json(), Ok(CONTEXTS_JSON.to_owned()), &template_factory)
            .ok()
            .expect("Failed to load contexts from a valid contexts_file");
    let login_message = MessageBuilder::new("6d2cba0c-e241-464a-89c3-8035cac8f73e", "message")
        .name(Some("LOGIN"))
        .pair("user_name", "linus")
        .build();
    let read_message = MessageBuilder::new("60dd1233-5fa6-4e3b-993f-e04ef9b4c164", "message")
        .name(Some("MAIL_READ"))
        .pair("user_name", "linus")
        .build();
    let logout_message = MessageBuilder::new("91ea534a-4880-4853-aec2-7b2a2df9a8c9", "message")
        .name(Some("LOGOUT"))
        .pair("user_name", "linus")
        .build();
    correlator.push_message(login_message).unwrap();
    correlator.push_message(read_message).unwrap();
    assert_eq!(0, correlator.responses().len());
    correlator.push_message(logout_message).unwrap();
    assert_eq!(1, correlator.responses().len());
    let mut alerts = Vec::new();
    correlator.handle_events(&mut alerts);
    assert_eq!(1, alerts.len());
    assert_eq!("4bbd15c4-ec2f-46ab-a8b4-9e1f0bd8a8b1", alerts[0].message.uuid());
    assert_eq!(Some("MAIL_SESSION_CLOSED"), alerts[0].message.name());
    assert_eq!("a mail session has ended", alerts[0].message.message());
    assert_eq!(Some("unknown"), alerts[0].message.get("user"));
}

#[test]
fn test_given_correlator_factory_when_the_config_file_does_not_exist_then_it_returns_io_error() {
    let template_factory = MockTemplateFactory::compile_value();
    let missing = std::io::Error::new(std::io::ErrorKind::NotFound, "not_existing_file.json");
    let result: Result<Correlator<MockTemplate>, CorrelatorError> =
        CorrelatorFactory::from_path(&json(), Err(missing), &template_factory);
    if let CorrelatorError::Io(_) = result.err().unwrap() {
    } else {
        unreachable!();
    }
}

#[test]
fn test_given_correlator_factory_when_it_reads_an_invalid_config_then_it_returns_deser_error() {
    let template_factory = MockTemplateFactory::compile_value();
    let invalid = r#"[ { "name": "no uuid", "conditions": { "timeout": 1 }, "actions": [] } ]"#;
    let result: Result<Correlator<MockTemplate>, _> =
        CorrelatorFactory::from_path(&json(), Ok(invalid.to_owned()), &template_factory);
    if let CorrelatorError::SerdeJson(_) = result.err().unwrap() {
    } else {
        unreachable!();
    }
}

#[test]
fn test_given_yaml_context_file_when_it_is_read_by_the_correlator_factory_then_the_contexts_are_deserialized(
) {
    let result =
        CorrelatorFactory::load_file::<MockTemplate>(&yaml(), Ok(CONTEXTS_YAML.to_owned())).unwrap();
    assert_eq!(1, result.len());
}

#[test]
fn test_name() {
    let invalid = "- name: [unclosed\n";
    let result = CorrelatorFactory::load_file::<MockTemplate>(&yaml(), Ok(invalid.to_owned()));
    if let CorrelatorError::SerdeYaml(_) = result.err().unwrap() {
    } else {
        unreachable!();
    }
}

#[test]
fn the_extension_selects_the_format() {
    let text = |extension: &str| FileExtension::Text(extension.to_owned());
    assert_eq!(ConfigFormat::Json, CorrelatorFactory::format_of(&text("json")).unwrap());
    for extension in ["yaml", "yml", "YAML", "YML", "Yaml", "yMl", "yaML"] {
        assert_eq!(ConfigFormat::Yaml, CorrelatorFactory::format_of(&text(extension)).unwrap());
    }
    for extension in ["JSON", "Json", "txt", "", "yam", "yamll", "ymml", "y\u{e4}ml", "xml"] {
        assert!(matches!(
            CorrelatorFactory::format_of(&text(extension)),
            Err(CorrelatorError::UnsupportedFileExtension)
        ));
    }
    assert!(matches!(
        CorrelatorFactory::format_of(&FileExtension::Missing),
        Err(CorrelatorError::UnsupportedFileExtension)
    ));
    assert!(matches!(
        CorrelatorFactory::format_of(&FileExtension::NotUtf8),
        Err(CorrelatorError::NotUtf8FileName)
    ));
}

#[test]
fn the_extension_is_looked_at_before_the_text() {
    let unreadable = || Err(std::io::Error::new(std::io::ErrorKind::NotFound, "gone"));
    assert!(matches!(
        CorrelatorFactory::load_file::<MockTemplate>(&FileExtension::Missing, unreadable()),
        Err(CorrelatorError::UnsupportedFileExtension)
    ));
    assert!(matches!(
        CorrelatorFactory::load_file::<MockTemplate>(&FileExtension::NotUtf8, unreadable()),
        Err(CorrelatorError::NotUtf8FileName)
    ));
    assert!(matches!(
        CorrelatorFactory::load_file::<MockTemplate>(&yaml(), unreadable()),
        Err(CorrelatorError::Io(_))
    ));
    assert!(matches!(
        CorrelatorFactory::load_file::<MockTemplate>(&json(), Ok("[".to_owned())),
        Err(CorrelatorError::SerdeJson(DecodeError::Json(_)))
    ));
    assert!(matches!(
        CorrelatorFactory::load_file::<MockTemplate>(&yaml(), Ok("{}".to_owned())),
        Err(CorrelatorError::SerdeYaml(DecodeError::InvalidType(_)))
    ));
}

#[test]
fn a_template_that_does_not_compile_ends_the_assembly() {
    let template_factory = MockTemplateFactory::compile_failure();
    let result = CorrelatorFactory::from_path(&json(), Ok(CONTEXTS_JSON.to_owned()), &template_factory);
    match result {
        Err(CorrelatorError::TemplateCompile(error)) => {
            assert_eq!("a mail session has ended", error.0)
        }
        _ => panic!("the factory rejects every template"),
    }
    let nothing_to_compile =
        CorrelatorFactory::from_path(&json(), Ok("[]".to_owned()), &template_factory);
    assert_eq!(0, nothing_to_compile.ok().unwrap().contexts().len());
}

fn linear_config() -> ContextConfig<MockTemplate> {
    let conditions = ConditionsBuilder::new(100).first_opens(true).last_closes(true).build();
    ContextConfigBuilder::new(1, conditions)
        .name("linear".to_owned())
        .patterns(vec!["A".to_owned(), "B".to_owned(), "C".to_owned()])
        .actions(vec![action("out")])
        .build()
}

#[test]
fn three_patterns_in_a_row_give_one_alert() {
    let mut correlator = correlator(vec![linear_config()]);
    let mut alerts = Vec::new();
    correlator.push_message(event("A")).unwrap();
    correlator.tick(TimerEvent::from_millis(20));
    correlator.handle_events(&mut alerts);
    correlator.push_message(event("B")).unwrap();
    correlator.tick(TimerEvent::from_millis(80));
    correlator.handle_events(&mut alerts);
    correlator.push_message(event("C")).unwrap();
    correlator.stop(&mut alerts);
    assert_eq!(vec!["out"], uuids(&alerts));
    assert_eq!("m", alerts[0].message.message());
}

#[test]
fn the_last_pattern_closes_before_the_timeout() {
    let mut correlator = correlator(vec![linear_config()]);
    let mut alerts = Vec::new();
    correlator.push_message(event("A")).unwrap();
    correlator.tick(TimerEvent::from_millis(20));
    correlator.push_message(event("B")).unwrap();
    correlator.tick(TimerEvent::from_millis(79));
    correlator.handle_events(&mut alerts);
    assert!(alerts.is_empty());
    correlator.push_message(event("C")).unwrap();
    correlator.handle_events(&mut alerts);
    assert_eq!(1, alerts.len());
    correlator.tick(TimerEvent::from_millis(1000));
    correlator.stop(&mut alerts);
    assert_eq!(1, alerts.len());
}

#[test]
fn a_full_context_closes_and_runs_both_actions() {
    let conditions = ConditionsBuilder::new(10_000).max_size(5).build();
    let config = ContextConfigBuilder::new(2, conditions)
        .actions(vec![action("first"), action("second")])
        .build();
    let mut correlator = correlator(vec![config]);
    let mut alerts = Vec::new();
    for i in 0..4 {
        correlator.push_message(event(&format!("event-{}", i))).unwrap();
        correlator.handle_events(&mut alerts);
        assert!(alerts.is_empty());
    }
    correlator.push_message(event("event-4")).unwrap();
    correlator.handle_events(&mut alerts);
    assert_eq!(vec!["first", "second"], uuids(&alerts));
}

#[test]
fn a_context_that_no_event_matches_stays_silent() {
    let conditions = ConditionsBuilder::new(100).build();
    let config = ContextConfigBuilder::new(3, conditions)
        .patterns(vec!["p1".to_owned()])
        .actions(vec![action("out")])
        .build();
    let mut correlator = correlator(vec![config]);
    let mut alerts = Vec::new();
    for i in 0..5 {
        correlator.push_message(event(&format!("other-{}", i))).unwrap();
        correlator.tick(TimerEvent::from_millis(10));
    }
    correlator.tick(TimerEvent::from_millis(200));
    correlator.stop(&mut alerts);
    assert!(alerts.is_empty());
}

#[test]
fn an_alert_that_loops_back_is_handled_as_a_new_event() {
    let first = ContextConfigBuilder::new(4, ConditionsBuilder::new(100).max_size(1).build())
        .patterns(vec!["A".to_owned()])
        .actions(vec![MessageActionBuilder::new("X", "looped")
            .when(on_closed())
            .inject_mode(InjectMode::Loopback)
            .build()
            .into()])
        .build();
    let second = ContextConfigBuilder::new(5, ConditionsBuilder::new(100).max_size(1).build())
        .patterns(vec!["X".to_owned()])
        .actions(vec![action("Y")])
        .build();
    let mut correlator = correlator(vec![first, second]);
    let mut alerts = Vec::new();

    correlator.push_message(event("A")).unwrap();
    assert_eq!(1, correlator.responses().len());
    assert!(matches!(
        &correlator.responses()[0],
        Response::Alert(alert) if alert.message.uuid() == "X" && alert.inject_mode == InjectMode::Loopback
    ));

    correlator.handle_events(&mut alerts);
    assert!(alerts.is_empty());
    assert_eq!(1, correlator.responses().len());
    assert!(matches!(
        &correlator.responses()[0],
        Response::Alert(alert) if alert.message.uuid() == "Y"
    ));

    correlator.handle_events(&mut alerts);
    assert_eq!(vec!["Y"], uuids(&alerts));
    assert!(correlator.responses().is_empty());
}

#[test]
fn a_stopped_correlator_hands_over_what_waits_and_takes_nothing_more() {
    let conditions = ConditionsBuilder::new(100).max_size(2).build();
    let config = ContextConfigBuilder::new(6, conditions)
        .actions(vec![
            action("out"),
            MessageActionBuilder::new("looped", "m")
                .when(on_closed())
                .inject_mode(InjectMode::Loopback)
                .build()
                .into(),
        ])
        .build();
    let mut correlator = correlator(vec![config]);
    let mut alerts = Vec::new();
    for i in 0..5 {
        correlator.push_message(event(&format!("event-{}", i))).unwrap();
    }
    assert!(!correlator.is_stopped());
    assert_eq!(4, correlator.responses().len());
    correlator.stop(&mut alerts);
    assert!(correlator.is_stopped());
    assert_eq!(vec!["out", "out"], uuids(&alerts));
    assert!(correlator.responses().is_empty());

    let refused = correlator.push_message(event("late"));
    match refused {
        Err(PushError(event)) => assert_eq!("late", event.uuid()),
        Ok(()) => panic!("a stopped correlator takes no event"),
    }
    correlator.tick(TimerEvent::from_millis(1000));
    assert!(correlator.responses().is_empty());
    correlator.stop(&mut alerts);
    correlator.handle_events(&mut alerts);
    assert_eq!(2, alerts.len());
    assert!(correlator.contexts().get(0).unwrap().is_open());
}

#[test]
fn the_reactor_answers_a_request_to_stop() {
    let mut reactor = Reactor::new(ContextMap::from_configs(vec![linear_config()]));
    let mut responses = Vec::new();
    assert!(reactor.handle(Request::Message(Arc::new(event("A"))), &mut responses));
    assert!(reactor.handle(Request::Timer(TimerEvent(100)), &mut responses));
    assert_eq!(1, responses.len());
    assert!(!reactor.handle(Request::Exit, &mut responses));
    assert_eq!(2, responses.len());
    assert!(matches!(responses[0], Response::Alert(_)));
    assert!(matches!(responses[1], Response::Exit));
    assert_eq!(1, reactor.contexts().len());
}

#[test]
fn contexts_handle_an_event_in_the_order_of_the_configuration() {
    let config = |uuid: u128, name: &str| {
        ContextConfigBuilder::new(uuid, ConditionsBuilder::new(100).max_size(1).build())
            .actions(vec![action(name)])
            .build()
    };
    let mut correlator = correlator(vec![config(1, "one"), config(2, "two"), config(3, "three")]);
    let mut alerts = Vec::new();
    correlator.push_message(event("any")).unwrap();
    correlator.handle_events(&mut alerts);
    assert_eq!(vec!["one", "two", "three"], uuids(&alerts));
}
