use correlation::conditions::ConditionsBuilder;
use correlation::context::base::BaseContextBuilder;
use correlation::context::context_map::{ContextMap, StreamingIterator};
use correlation::context::linear::LinearContext;
use correlation::context::Context;
use correlation::message::MessageBuilder;
use correlation::test_utils::MockTemplate;
use uuid::Uuid;

fn assert_context_map_contains_uuid(context_map: &mut ContextMap<MockTemplate>, uuid: &Uuid, key: &str) {
    let mut iter = context_map.contexts_iter_mut(key);
    let index = iter.next().expect("Failed to get back an inserted context");
    let context = context_map.get(index).expect("Failed to get back an inserted context");
    let Context::Linear(ref context) = *context;
    assert_eq!(uuid.as_u128(), context.uuid());
}

#[test]
fn test_given_context_map_when_a_context_is_inserted_then_its_patters_are_inserted_to_the_map_with_its_id(
) {
    let mut context_map = ContextMap::<MockTemplate>::new();
    let uuid = Uuid::new_v4();
    let context1 = {
        let conditions = { ConditionsBuilder::new(100).build() };
        let patterns = vec!["A".to_owned(), "B".to_owned()];
        let base = BaseContextBuilder::new(uuid.as_u128(), conditions)
            .patterns(patterns)
            .build();
        LinearContext::new(base)
    };
    context_map.insert(Context::Linear(context1));
    assert_eq!(context_map.contexts_mut().len(), 1);
    assert_context_map_contains_uuid(&mut context_map, &uuid, "A");
    assert_context_map_contains_uuid(&mut context_map, &uuid, "B");
}

fn context(uuid: u128, patterns: &[&str]) -> Context<MockTemplate> {
    let patterns = patterns.iter().map(|p| (*p).to_owned()).collect();
    let base = BaseContextBuilder::new(uuid, ConditionsBuilder::new(100).build())
        .patterns(patterns)
        .build();
    Context::Linear(LinearContext::new(base))
}

fn map_of(contexts: Vec<Context<MockTemplate>>) -> ContextMap<MockTemplate> {
    let mut map = ContextMap::new();
    for context in contexts {
        map.insert(context);
    }
    map
}

fn walk(map: &ContextMap<MockTemplate>, key: &str) -> Vec<usize> {
    let mut iter = map.contexts_iter_mut(key);
    let mut found = Vec::new();
    while let Some(index) = iter.next() {
        found.push(index);
    }
    found
}

#[test]
fn an_event_goes_to_the_contexts_that_name_one_of_its_ids() {
    let map = map_of(vec![
        context(0, &["a", "b"]),
        context(1, &["c"]),
        context(2, &["b", "n"]),
        context(3, &["n"]),
    ]);
    let event = MessageBuilder::new("b", "text").name(Some("n")).build();
    assert_eq!(vec![0, 2, 3], map.dispatch(&event));
    let unnamed = MessageBuilder::new("c", "text").build();
    assert_eq!(vec![1], map.dispatch(&unnamed));
    let unknown = MessageBuilder::new("x", "text").name(Some("y")).build();
    assert_eq!(Vec::<usize>::new(), map.dispatch(&unknown));
}

#[test]
fn a_context_that_two_ids_reach_gets_the_event_once() {
    let map = map_of(vec![context(0, &["uuid", "name"]), context(1, &["name", "name"])]);
    let event = MessageBuilder::new("uuid", "text").name(Some("name")).build();
    assert_eq!(vec![0, 1], map.dispatch(&event));
    let same_ids = MessageBuilder::new("name", "text").name(Some("name")).build();
    assert_eq!(vec![0, 1], map.dispatch(&same_ids));
    assert_eq!(vec![0, 1], walk(&map, "name"));
}

#[test]
fn a_context_without_patterns_gets_every_event() {
    let map = map_of(vec![
        context(0, &["a"]),
        context(1, &[]),
        context(2, &["b"]),
        context(3, &[]),
        context(4, &["a"]),
    ]);
    let known = MessageBuilder::new("a", "text").build();
    assert_eq!(vec![0, 1, 3, 4], map.dispatch(&known));
    let late = MessageBuilder::new("b", "text").build();
    assert_eq!(vec![1, 2, 3], map.dispatch(&late));
    let unknown = MessageBuilder::new("z", "text").name(Some("zz")).build();
    assert_eq!(vec![1, 3], map.dispatch(&unknown));
    assert_eq!(vec![1, 3], walk(&map, "nothing"));
}

#[test]
fn an_empty_map_delivers_nothing() {
    let map: ContextMap<MockTemplate> = ContextMap::default();
    assert_eq!(0, map.len());
    let event = MessageBuilder::new("a", "text").build();
    assert!(map.dispatch(&event).is_empty());
    assert!(map.get(0).is_none());
    assert!(walk(&map, "a").is_empty());
}
