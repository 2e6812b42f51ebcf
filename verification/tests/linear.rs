use correlation::conditions::ConditionsBuilder;
use correlation::config::action::message::MessageActionBuilder;
use correlation::config::action::{ActionType, ExecCondition};
use correlation::config::{compile_configs, ContextConfigBuilder};
use correlation::context::base::BaseContextBuilder;
use correlation::context::context_map::ContextMap;
use correlation::context::linear::LinearContext;
use correlation::context::Context;
use correlation::dispatcher::request::Request;
use correlation::dispatcher::Response;
use correlation::message::{Message, MessageBuilder};
use correlation::template::TemplatableString;
use correlation::test_utils::{MockTemplate, MockTemplateFactory};
use correlation::timer::TimerEvent;
use std::sync::Arc;

fn event(uuid: &str) -> Arc<Message> {
    Arc::new(MessageBuilder::new(uuid, "text").build())
}

fn closing_action(uuid: &str) -> ActionType<MockTemplate> {
    MessageActionBuilder::new(uuid, "m")
        .when(ExecCondition { on_opened: false, on_closed: true })
        .build()
        .into()
}

fn linear(patterns: &[&str]) -> LinearContext<MockTemplate> {
    let base = BaseContextBuilder::new(7, ConditionsBuilder::new(10).build())
        .patterns(patterns.iter().map(|p| (*p).to_owned()).collect())
        .actions(vec![closing_action("out")])
        .build();
    LinearContext::new(base)
}

#[test]
fn a_linear_context_handles_events_and_ticks() {
    let mut context = linear(&["a"]);
    let mut responses: Vec<Response<Message>> = Vec::new();
    assert!(!context.is_open());
    assert_eq!(7, context.uuid());
    assert_eq!(&["a".to_owned()], context.patterns());
    context.on_event(Request::Timer(TimerEvent(100)), &mut responses);
    assert!(!context.is_open());
    context.on_event(Request::Message(event("a")), &mut responses);
    assert!(context.is_open());
    assert_eq!(1, context.state().messages().len());
    context.on_event(Request::Exit, &mut responses);
    assert!(context.is_open());
    context.on_event(Request::Timer(TimerEvent(9)), &mut responses);
    assert!(responses.is_empty());
    assert_eq!(9, context.state().elapsed_time());
    context.on_event(Request::Timer(TimerEvent(1)), &mut responses);
    assert!(!context.is_open());
    assert_eq!(1, responses.len());
    assert_eq!(7, context.base().uuid());
}

#[test]
fn a_context_of_any_kind_handles_events_and_ticks() {
    let mut context = Context::Linear(linear(&[]));
    let mut responses: Vec<Response<Message>> = Vec::new();
    assert!(context.patterns().is_empty());
    context.on_message(event("x"), &mut responses);
    assert!(context.is_open());
    context.on_timer(&TimerEvent(10), &mut responses);
    assert!(!context.is_open());
    assert_eq!(1, responses.len());
    context.on_event(Request::Message(event("y")), &mut responses);
    assert!(context.is_open());
}

#[test]
fn a_configuration_becomes_a_closed_context_with_its_patterns() {
    let conditions = ConditionsBuilder::new(10).patterns(vec!["ignored".to_owned()]).build();
    let config = ContextConfigBuilder::<MockTemplate>::new(9, conditions)
        .name("configured".to_owned())
        .context_id(Some(vec!["user".to_owned()]))
        .patterns(vec!["a".to_owned(), "b".to_owned()])
        .actions(vec![closing_action("out")])
        .build();
    assert_eq!(Some(vec!["user".to_owned()]), config.context_id);
    let context = config.into_context();
    assert!(!context.is_open());
    assert_eq!(&["a".to_owned(), "b".to_owned()], context.patterns());
    let Context::Linear(linear) = context;
    assert_eq!(Some(&"configured".to_owned()), linear.base().name());
    assert_eq!(1, linear.base().actions().len());
}

#[test]
fn compiling_configurations_compiles_every_string_in_order() {
    let config = |uuid: u128, message: &str, value: &str| {
        ContextConfigBuilder::<MockTemplate>::new(uuid, ConditionsBuilder::new(10).build())
            .actions(vec![MessageActionBuilder::new("out", message).pair("k", value).build().into()])
            .build()
    };
    let configs = vec![config(1, "first", "second"), config(2, "third", "fourth")];
    let compiled = compile_configs(&MockTemplateFactory::compile_value(), configs)
        .ok()
        .expect("the factory compiles every source");
    assert_eq!(2, compiled.len());
    for config in &compiled {
        let ActionType::Message(action) = &config.actions[0];
        assert_eq!(None, action.message());
        assert!(matches!(action.values()[0].1, TemplatableString::Template(_)));
    }
    let configs = vec![config(1, "first", "second"), config(2, "third", "fourth")];
    let error = compile_configs(&MockTemplateFactory::compile_failure(), configs).err().unwrap();
    assert_eq!("first", error.0);
}

#[test]
fn the_contexts_of_a_map_can_be_worked_on_in_place() {
    let mut map: ContextMap<MockTemplate> = ContextMap::new();
    map.insert(Context::Linear(linear(&["a"])));
    map.insert(Context::Linear(linear(&[])));
    let mut responses = Vec::new();
    for context in map.contexts_mut().iter_mut() {
        context.on_message(event("anything"), &mut responses);
    }
    assert!(map.get(0).unwrap().is_open());
    assert!(map.get(1).unwrap().is_open());
    map.on_timer(&TimerEvent(10), &mut responses);
    assert_eq!(2, responses.len());
    assert_eq!(vec![0, 1], map.dispatch(&*event("a")));
    map.on_message(event("b"), &mut responses);
    assert!(!map.get(0).unwrap().is_open());
    assert!(map.get(1).unwrap().is_open());
}
