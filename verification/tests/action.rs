use correlation::conditions::ConditionsBuilder;
use correlation::config::action::message::{Alert, InjectMode, MessageAction, MessageActionBuilder};
use correlation::config::action::{ActionType, ExecCondition};
use correlation::context::base::{BaseContext, BaseContextBuilder};
use correlation::dispatcher::{Response, ResponseHandle};
use correlation::event::Event;
use correlation::message::{Message, MessageBuilder};
use correlation::state::State;
use correlation::template::{TemplatableString, Template, TemplateFactory};
use correlation::test_utils::{MockTemplate, MockTemplateFactory};
use correlation::timer::TimerEvent;
use std::sync::Arc;

const CONTEXT_UUID: u128 = 0x185e96da_c00e_454b_b4fe_9d0a14a86335;

fn event(uuid: &str) -> Arc<Message> {
    Arc::new(MessageBuilder::new(uuid, "text").build())
}

fn both() -> ExecCondition {
    ExecCondition { on_opened: true, on_closed: true }
}

fn on_closed() -> ExecCondition {
    ExecCondition { on_opened: false, on_closed: true }
}

fn on_opened() -> ExecCondition {
    ExecCondition { on_opened: true, on_closed: false }
}

fn alerts(responses: &[Response<Message>]) -> Vec<&Alert<Message>> {
    responses
        .iter()
        .map(|response| match response {
            Response::Alert(alert) => alert,
            Response::Exit => panic!("a context does not send the notice of a stop"),
        })
        .collect()
}

#[test]
fn the_default_action_runs_on_no_transition() {
    assert_eq!(ExecCondition { on_opened: false, on_closed: false }, ExecCondition::default());
    assert_eq!(ExecCondition::default(), ExecCondition::new());
    assert_eq!(InjectMode::Log, InjectMode::default());
    let action: MessageAction<MockTemplate> = MessageActionBuilder::new("uuid", "message").build();
    assert_eq!(&ExecCondition::default(), action.when());
    assert_eq!(&InjectMode::Log, action.inject_mode());
    assert_eq!("uuid", action.uuid());
    assert_eq!(None, action.name());
    assert_eq!(Some("message"), action.message());
    assert!(action.values().is_empty());
}

#[test]
fn a_pair_replaces_the_value_of_its_key() {
    let action: MessageAction<MockTemplate> = MessageActionBuilder::new("uuid", "message")
        .pair("k1", "v1")
        .pair("k2", "v2")
        .pair("k1", "v3")
        .build();
    let values: Vec<(String, String)> = action
        .values()
        .iter()
        .map(|(key, value)| match value {
            TemplatableString::Literal(text) => (key.clone(), text.clone()),
            TemplatableString::Template(_) => panic!("a pair is a literal"),
        })
        .collect();
    assert_eq!(
        vec![("k1".to_owned(), "v3".to_owned()), ("k2".to_owned(), "v2".to_owned())],
        values
    );
}

#[test]
fn an_alert_carries_the_uuid_the_name_the_message_and_the_values() {
    let action: MessageAction<MockTemplate> = MessageActionBuilder::new("out", "text")
        .name(Some("NAME"))
        .pair("k1", "v1")
        .values(vec![
            ("a".to_owned(), TemplatableString::Literal("literal".to_owned())),
            ("b".to_owned(), TemplatableString::Template(MockTemplate::literal("formatted"))),
            ("a".to_owned(), TemplatableString::Literal("later".to_owned())),
        ])
        .inject_mode(InjectMode::Forward)
        .build();
    let alert = action.execute(&[event("e")], "id").expect("every string can be formatted");
    assert_eq!("out", alert.message.uuid());
    assert_eq!(Some("NAME"), alert.message.name());
    assert_eq!("text", alert.message.message());
    assert_eq!(Some("later"), alert.message.get("a"));
    assert_eq!(Some("formatted"), alert.message.get("b"));
    assert_eq!(None, alert.message.get("k1"));
    assert_eq!(InjectMode::Forward, alert.inject_mode);
}

#[test]
fn an_alert_is_built_from_what_was_formatted() {
    let action: MessageAction<MockTemplate> = MessageActionBuilder::new("out", "ignored").build();
    let pairs = vec![("k".to_owned(), "v".to_owned())];
    let alert = action.alert_with("given", &pairs);
    assert_eq!("given", alert.message.message());
    assert_eq!(Some("v"), alert.message.get("k"));
    assert_eq!(None, alert.message.name());
}

#[test]
fn a_string_that_cannot_be_formatted_drops_the_alert() {
    let failing_value: MessageAction<MockTemplate> = MessageActionBuilder::new("out", "text")
        .values(vec![
            ("a".to_owned(), TemplatableString::Literal("literal".to_owned())),
            ("b".to_owned(), TemplatableString::Template(MockTemplate::failing())),
        ])
        .build();
    assert!(failing_value.execute(&[], "id").is_none());
}

fn context(actions: Vec<ActionType<MockTemplate>>) -> BaseContext<MockTemplate> {
    let conditions = ConditionsBuilder::new(100).first_opens(true).last_closes(true).build();
    BaseContextBuilder::new(CONTEXT_UUID, conditions)
        .name(Some("context".to_owned()))
        .patterns(vec!["a".to_owned(), "b".to_owned()])
        .actions(actions)
        .build()
}

fn action(uuid: &str, when: ExecCondition) -> ActionType<MockTemplate> {
    MessageActionBuilder::new(uuid, "text").when(when).build().into()
}

#[test]
fn the_context_id_is_the_hyphenated_uuid() {
    let context = context(vec![]);
    assert_eq!("185e96da-c00e-454b-b4fe-9d0a14a86335", context.context_id());
    assert_eq!(CONTEXT_UUID, context.uuid());
    assert_eq!(Some(&"context".to_owned()), context.name());
    assert_eq!(&["a".to_owned(), "b".to_owned()], context.patterns());
    assert_eq!(100, context.conditions().timeout);
    let small = BaseContextBuilder::<MockTemplate>::new(0xab, ConditionsBuilder::new(1).build()).build();
    assert_eq!("00000000-0000-0000-0000-0000000000ab", small.context_id());
}

#[test]
fn every_action_fires_once_per_transition_in_the_order_of_the_configuration() {
    let context = context(vec![
        action("closed-1", on_closed()),
        action("opened-1", on_opened()),
        action("never", ExecCondition::default()),
        action("both", both()),
        action("closed-2", on_closed()),
    ]);
    let mut state = State::new();
    let mut responses = Vec::new();

    context.on_message(event("b"), &mut state, &mut responses);
    assert!(!state.is_open());
    assert!(responses.is_empty());

    context.on_message(event("a"), &mut state, &mut responses);
    assert!(state.is_open());
    let uuids: Vec<&str> = alerts(&responses).iter().map(|a| a.message.uuid()).collect();
    assert_eq!(vec!["opened-1", "both"], uuids);

    responses.clear();
    context.on_message(event("x"), &mut state, &mut responses);
    context.on_timer(&TimerEvent(10), &mut state, &mut responses);
    assert!(state.is_open());
    assert_eq!(2, state.messages().len());
    assert!(responses.is_empty());

    context.on_message(event("b"), &mut state, &mut responses);
    assert!(!state.is_open());
    assert!(state.messages().is_empty());
    let uuids: Vec<&str> = alerts(&responses).iter().map(|a| a.message.uuid()).collect();
    assert_eq!(vec!["closed-1", "both", "closed-2"], uuids);
    assert!(responses.iter().all(|r| r.handle() == ResponseHandle::Alert));

    responses.clear();
    context.on_timer(&TimerEvent(1000), &mut state, &mut responses);
    context.on_message(event("b"), &mut state, &mut responses);
    assert!(responses.is_empty());
    assert!(!state.is_open());
}

#[test]
fn an_event_can_open_and_close_a_context_at_once() {
    let conditions = ConditionsBuilder::new(100).max_size(1).build();
    let context: BaseContext<MockTemplate> = BaseContextBuilder::new(1, conditions)
        .actions(vec![action("opened", on_opened()), action("closed", on_closed())])
        .build();
    let mut state = State::new();
    let mut responses = Vec::new();
    context.on_message(event("a"), &mut state, &mut responses);
    let uuids: Vec<&str> = alerts(&responses).iter().map(|a| a.message.uuid()).collect();
    assert_eq!(vec!["opened", "closed"], uuids);
    assert!(!state.is_open());
    assert!(state.messages().is_empty());
}

#[test]
fn a_tick_closes_a_context_whose_timeout_has_passed() {
    let context = context(vec![action("closed", on_closed())]);
    let mut state = State::new();
    let mut responses = Vec::new();
    context.on_timer(&TimerEvent(500), &mut state, &mut responses);
    assert!(responses.is_empty());
    context.on_message(event("a"), &mut state, &mut responses);
    context.on_timer(&TimerEvent(99), &mut state, &mut responses);
    assert!(state.is_open());
    assert_eq!(99, state.elapsed_time());
    context.on_timer(&TimerEvent(1), &mut state, &mut responses);
    assert!(!state.is_open());
    assert_eq!(0, state.elapsed_time());
    assert_eq!(1, responses.len());
}

#[test]
fn a_renewed_context_stays_open_until_the_events_stop() {
    let conditions = ConditionsBuilder::new(10_000).renew_timeout(10).build();
    let context: BaseContext<MockTemplate> = BaseContextBuilder::new(1, conditions)
        .actions(vec![action("closed", on_closed())])
        .build();
    let mut state = State::new();
    let mut responses = Vec::new();
    context.on_message(event("a"), &mut state, &mut responses);
    for _ in 0..50 {
        context.on_timer(&TimerEvent(9), &mut state, &mut responses);
        context.on_message(event("a"), &mut state, &mut responses);
    }
    assert!(state.is_open());
    assert!(responses.is_empty());
    assert_eq!(450, state.elapsed_time());
    context.on_timer(&TimerEvent(9), &mut state, &mut responses);
    assert!(state.is_open());
    context.on_timer(&TimerEvent(1), &mut state, &mut responses);
    assert!(!state.is_open());
    assert_eq!(1, responses.len());
}

#[test]
fn the_actions_see_the_events_of_the_context() {
    let conditions = ConditionsBuilder::new(100).max_size(2).build();
    let action: ActionType<MockTemplate> = MessageActionBuilder::new("out", "ignored")
        .when(both())
        .build()
        .compile(&MockTemplateFactory::compile_value())
        .ok()
        .expect("the factory compiles every source")
        .into();
    let context: BaseContext<MockTemplate> =
        BaseContextBuilder::new(1, conditions).actions(vec![action]).build();
    assert_eq!(1, context.actions().len());
    let mut state = State::new();
    let mut responses = Vec::new();
    context.on_message(event("a"), &mut state, &mut responses);
    context.on_message(event("b"), &mut state, &mut responses);
    let messages: Vec<&str> = alerts(&responses).iter().map(|a| a.message.message()).collect();
    assert_eq!(vec!["ignored", "ignored"], messages);
}

#[test]
fn compiling_turns_literals_into_templates() {
    let factory = MockTemplateFactory::compile_value();
    let action: MessageAction<MockTemplate> =
        MessageActionBuilder::new("out", "source").pair("k", "v").build();
    let compiled = action.compile(&factory).ok().expect("the factory compiles every source");
    assert_eq!(None, compiled.message());
    assert!(matches!(compiled.values()[0].1, TemplatableString::Template(_)));
    let alert = compiled.execute(&[], "id").unwrap();
    assert_eq!("source", alert.message.message());
    assert_eq!(Some("v"), alert.message.get("k"));
    assert_eq!("x", factory.compile("x").ok().unwrap().format(&Message::new("u", "m")).unwrap());
}

#[test]
fn the_first_source_that_does_not_compile_is_the_error() {
    let factory = MockTemplateFactory::compile_failure();
    let action: MessageAction<MockTemplate> =
        MessageActionBuilder::new("out", "source").pair("k", "v").build();
    let error = action.compile(&factory).err().expect("the factory rejects every source");
    assert_eq!("source", error.0);
    let compiled_message: MessageAction<MockTemplate> = MessageActionBuilder::new("out", "source")
        .pair("k", "v")
        .build()
        .compile(&MockTemplateFactory::compile_value())
        .ok()
        .unwrap();
    assert!(compiled_message.compile(&factory).is_ok());
}
