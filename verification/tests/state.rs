use correlation::conditions::{Conditions, ConditionsBuilder};
use correlation::message::{Message, MessageBuilder};
use correlation::state::State;
use correlation::timer::TimerEvent;
use std::sync::Arc;

fn event(uuid: &str, name: Option<&str>) -> Arc<Message> {
    Arc::new(MessageBuilder::new(uuid, "text").name(name).build())
}

fn assert_fresh(state: &State<Message>) {
    assert!(!state.is_open());
    assert!(state.messages().is_empty());
    assert_eq!(0, state.elapsed_time());
    assert_eq!(0, state.elapsed_time_since_last_message());
    assert_eq!(0, state.opened_at());
    assert_eq!(0, state.last_message_at());
}

#[test]
fn a_new_state_is_closed_and_empty() {
    assert_fresh(&State::new());
}

#[test]
fn a_closed_state_is_like_a_new_one() {
    let mut state: State<Message> = State::new();
    state.open();
    state.add_message(event("a", None));
    state.update_timers(&TimerEvent::from_millis(7));
    state.add_message(event("b", None));
    state.update_timers(&TimerEvent::from_millis(5));
    assert!(state.is_open());
    assert_eq!(2, state.messages().len());
    state.close();
    assert_fresh(&state);
    state.close();
    assert_fresh(&state);
    state.open();
    assert!(state.is_open());
    assert!(state.messages().is_empty());
}

#[test]
fn timers_add_up_the_ticks() {
    let mut state: State<Message> = State::new();
    state.open();
    state.update_timers(&TimerEvent::from_millis(3));
    state.update_timers(&TimerEvent::from_millis(4));
    assert_eq!(7, state.elapsed_time());
    assert_eq!(7, state.elapsed_time_since_last_message());
    state.add_message(event("a", None));
    assert_eq!(7, state.elapsed_time());
    assert_eq!(0, state.elapsed_time_since_last_message());
    assert_eq!(7, state.last_message_at());
    assert_eq!(0, state.opened_at());
    state.update_timers(&TimerEvent(10));
    state.update_timers(&TimerEvent(0));
    state.update_timers(&TimerEvent(1));
    assert_eq!(18, state.elapsed_time());
    assert_eq!(11, state.elapsed_time_since_last_message());
    assert_eq!(1, TimerEvent(1).millis());
}

#[test]
fn a_timer_stops_at_the_largest_value() {
    let mut state: State<Message> = State::new();
    state.open();
    state.update_timers(&TimerEvent(u64::MAX - 1));
    state.add_message(event("a", None));
    state.update_timers(&TimerEvent(5));
    assert_eq!(u64::MAX, state.elapsed_time());
    assert_eq!(5, state.elapsed_time_since_last_message());
    state.update_timers(&TimerEvent(u64::MAX));
    assert_eq!(u64::MAX, state.elapsed_time());
    assert_eq!(u64::MAX, state.elapsed_time_since_last_message());
}

#[test]
fn without_first_opens_every_event_opens() {
    let conditions = ConditionsBuilder::new(100).patterns(vec!["a".to_owned()]).build();
    assert!(conditions.is_opening(&*event("z", None)));
}

#[test]
fn with_first_opens_only_the_first_pattern_opens() {
    let conditions = ConditionsBuilder::new(100)
        .first_opens(true)
        .patterns(vec!["a".to_owned(), "b".to_owned()])
        .build();
    assert!(conditions.is_opening(&*event("a", None)));
    assert!(conditions.is_opening(&*event("x", Some("a"))));
    assert!(!conditions.is_opening(&*event("b", None)));
    assert!(!conditions.is_opening(&*event("x", Some("b"))));
    let no_patterns = ConditionsBuilder::new(100).first_opens(true).build();
    assert!(!no_patterns.is_opening(&*event("a", None)));
}

fn open_state(events: &[Arc<Message>], ticks: &[u64]) -> State<Message> {
    let mut state = State::new();
    state.open();
    for event in events {
        state.add_message(event.clone());
    }
    for tick in ticks {
        state.update_timers(&TimerEvent(*tick));
    }
    state
}

#[test]
fn a_closed_state_never_closes() {
    let conditions = ConditionsBuilder::new(0).max_size(0).renew_timeout(0).build();
    let state: State<Message> = State::new();
    assert!(!conditions.is_closing(&state));
    assert!(conditions.is_closing(&open_state(&[], &[])));
}

#[test]
fn a_full_state_closes() {
    let conditions = ConditionsBuilder::new(100).max_size(2).build();
    assert!(!conditions.is_closing(&open_state(&[event("a", None)], &[])));
    assert!(conditions.is_closing(&open_state(&[event("a", None), event("b", None)], &[])));
}

#[test]
fn the_last_pattern_closes_when_asked_to() {
    let patterns = vec!["a".to_owned(), "b".to_owned()];
    let closing = ConditionsBuilder::new(100).last_closes(true).patterns(patterns.clone()).build();
    assert!(closing.is_closing(&open_state(&[event("a", None), event("b", None)], &[])));
    assert!(closing.is_closing(&open_state(&[event("x", Some("b"))], &[])));
    assert!(!closing.is_closing(&open_state(&[event("b", None), event("a", None)], &[])));
    assert!(!closing.is_closing(&open_state(&[], &[])));
    let plain = ConditionsBuilder::new(100).patterns(patterns).build();
    assert!(!plain.is_closing(&open_state(&[event("b", None)], &[])));
}

#[test]
fn the_timeout_counts_from_the_opening() {
    let conditions = ConditionsBuilder::new(100).build();
    assert!(!conditions.is_closing(&open_state(&[], &[99])));
    assert!(conditions.is_closing(&open_state(&[], &[99, 1])));
    assert!(conditions.is_closing(&open_state(&[], &[250])));
}

#[test]
fn the_renew_timeout_counts_from_the_latest_event() {
    let conditions = ConditionsBuilder::new(1000).renew_timeout(10).build();
    let mut state = open_state(&[event("a", None)], &[9]);
    assert!(!conditions.is_closing(&state));
    state.add_message(event("b", None));
    state.update_timers(&TimerEvent(9));
    assert!(!conditions.is_closing(&state));
    state.update_timers(&TimerEvent(1));
    assert!(conditions.is_closing(&state));
}

#[test]
fn the_builder_starts_from_the_timeout_alone() {
    let conditions: Conditions = ConditionsBuilder::new(5).build();
    assert_eq!(5, conditions.timeout);
    assert_eq!(None, conditions.renew_timeout);
    assert_eq!(None, conditions.max_size);
    assert!(!conditions.first_opens);
    assert!(!conditions.last_closes);
    assert!(conditions.patterns.is_empty());
}
