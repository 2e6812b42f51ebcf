//! What holds of the engine as a whole.

use vstd::prelude::*;
use std::sync::Arc;
use crate::conditions::ConditionsModel;
use crate::config::action::{fired, ActionModel, ExecCondition};
use crate::config::decode::{
    exec_condition_fields, exec_condition_of, is_key, lemma_exec_condition_stops,
    lemma_message_action_stops, message_action_of, DecodeFailure, MessageActionParts,
};
use crate::config::document::Document;
use crate::context::base::BaseContextModel;
use crate::context::context_map::{increasing, is_delivery, pattern_matches, takes};
use crate::dispatcher::request::Request;
use crate::reactor::after_request;
use crate::context::linear::LinearContextModel;
use crate::dispatcher::ResponseModel;
use crate::event::Event;
use crate::state::{saturated, StateModel};
use crate::template::Template;

verus! {

/// Two growing lists with the same numbers are the same list.
pub proof fn lemma_increasing_unique(first: Seq<usize>, second: Seq<usize>)
    requires
        increasing(first),
        increasing(second),
        forall|x: usize| first.contains(x) <==> second.contains(x),
    ensures
        first == second,
    decreases first.len(),
{
    if first.len() == 0 {
        if second.len() > 0 {
            assert(second.contains(second[0]));
        }
        assert(first =~= second);
    } else {
        let top = first.last();
        assert(first.contains(top));
        assert(second.contains(top));
        let at = choose|at: int| 0 <= at < second.len() && second[at] == top;
        if at < second.len() - 1 {
            let above = second.last();
            assert(second.contains(above));
            assert(first.contains(above));
            let back = choose|back: int| 0 <= back < first.len() && first[back] == above;
            assert(second[at] < above);
            if back < first.len() - 1 {
                assert(first[back] < first.last());
            }
        }
        let shorter = first.drop_last();
        let other = second.drop_last();
        assert forall|x: usize| shorter.contains(x) <==> other.contains(x) by {
            if shorter.contains(x) {
                let k = choose|k: int| 0 <= k < shorter.len() && shorter[k] == x;
                assert(first[k] == x);
                assert(first[k] < first.last());
                assert(first.contains(x));
                assert(second.contains(x));
                let m = choose|m: int| 0 <= m < second.len() && second[m] == x;
                assert(m < second.len() - 1);
                assert(other[m] == x);
            }
            if other.contains(x) {
                let k = choose|k: int| 0 <= k < other.len() && other[k] == x;
                assert(second[k] == x);
                assert(second[k] < second.last());
                assert(second.contains(x));
                assert(first.contains(x));
                let m = choose|m: int| 0 <= m < first.len() && first[m] == x;
                assert(m < first.len() - 1);
                assert(shorter[m] == x);
            }
        }
        lemma_increasing_unique(shorter, other);
        assert(first =~= shorter.push(top));
        assert(second =~= other.push(top));
    }
}

/// An event is delivered to exactly the contexts that have no pattern or
/// have one of the event's ids among their patterns, in the order of the
/// configuration and to none twice; there is one such delivery only.
pub proof fn law_dispatch_is_exact<T: Template>(
    indices: Seq<usize>,
    other: Seq<usize>,
    contexts: Seq<LinearContextModel<T>>,
    ids: Seq<Seq<char>>,
)
    requires
        is_delivery(indices, contexts, ids),
    ensures
        indices.no_duplicates(),
        forall|a: int, b: int| 0 <= a < b < indices.len() ==> indices[a] < indices[b],
        forall|i: usize|
            indices.contains(i) <==> (i < contexts.len() && (contexts[i as int].base.patterns().len()
                == 0 || exists|k: int|
                0 <= k < ids.len() && contexts[i as int].base.patterns().contains(#[trigger] ids[k]))),
        is_delivery(other, contexts, ids) ==> other == indices,
{
    assert forall|i: usize|
        indices.contains(i) <==> (i < contexts.len() && (contexts[i as int].base.patterns().len()
            == 0 || exists|k: int|
            0 <= k < ids.len() && contexts[i as int].base.patterns().contains(#[trigger] ids[k]))) by {
        if i < contexts.len() {
            assert(pattern_matches(contexts[i as int].base.patterns(), ids) <==> (contexts[i as int].base.patterns().len()
                == 0 || exists|k: int|
                0 <= k < ids.len() && contexts[i as int].base.patterns().contains(
                    #[trigger] ids[k],
                )));
        }
    }
    if is_delivery(other, contexts, ids) {
        lemma_increasing_unique(other, indices);
    }
}

/// The number of actions that send an alert on a transition.
pub open spec fn senders<T: Template>(
    actions: Seq<ActionModel<T>>,
    opened: bool,
    messages: Seq<Arc<T::Event>>,
    context_id: Seq<char>,
) -> nat
    decreases actions.len(),
{
    if actions.len() == 0 {
        0
    } else {
        senders(actions.drop_last(), opened, messages, context_id) + (
        if actions.last().emitted(opened, messages, context_id).len() > 0 {
            1nat
        } else {
            0nat
        })
    }
}

/// On one transition every action sends at most one alert, and exactly one
/// where it runs on that transition and its alert can be formatted; so a
/// transition yields as many alerts as there are such actions.
pub proof fn law_actions_fire_once<T: Template>(
    actions: Seq<ActionModel<T>>,
    opened: bool,
    messages: Seq<Arc<T::Event>>,
    context_id: Seq<char>,
)
    ensures
        forall|i: int|
            0 <= i < actions.len() ==> (#[trigger] actions[i]).emitted(
                opened,
                messages,
                context_id,
            ).len() == (match actions[i] {
                ActionModel::Message(action) => if action.runs_on(opened) && action.alert(
                    messages,
                    context_id,
                ) is Some {
                    1nat
                } else {
                    0nat
                },
            }),
        fired(actions, opened, messages, context_id).len() == senders(
            actions,
            opened,
            messages,
            context_id,
        ),
        fired(actions, opened, messages, context_id).len() <= actions.len(),
    decreases actions.len(),
{
    if actions.len() > 0 {
        law_actions_fire_once(actions.drop_last(), opened, messages, context_id);
    }
}

/// While a context handles one event, its actions are run for the opening
/// only if the event opens it, and for the closing only if the context
/// closes then, each time once; a context that has closed is closed and
/// fresh, so that nothing is run for a closing again before it has opened
/// anew.
pub proof fn law_one_firing_per_transition<T: Template>(
    context: BaseContextModel<T>,
    state: StateModel<T::Event>,
    event: Arc<T::Event>,
)
    ensures
        context.message_responses(state, event) == (if !state.open && context.is_opening(event) {
            fired(context.actions, true, state.messages.push(event), context.context_id())
        } else {
            Seq::<ResponseModel>::empty()
        }) + (if context.conditions.is_closing(context.accepted(state, event)) {
            fired(
                context.actions,
                false,
                context.accepted(state, event).messages,
                context.context_id(),
            )
        } else {
            Seq::<ResponseModel>::empty()
        }),
        context.conditions.is_closing(context.accepted(state, event)) ==> context.after_message(
            state,
            event,
        ) == StateModel::<T::Event>::fresh(),
        !context.conditions.is_closing(StateModel::<T::Event>::fresh()),
        context.closing_responses(StateModel::<T::Event>::fresh()) == Seq::<ResponseModel>::empty(),
{
}

/// While a context handles a tick, its actions are run only if it closes
/// then, and once; a closed context emits nothing and stays as it is.
pub proof fn law_one_firing_per_tick<T: Template>(
    context: BaseContextModel<T>,
    state: StateModel<T::Event>,
    millis: nat,
)
    ensures
        context.timer_responses(state, millis) == (if context.conditions.is_closing(
            context.advanced(state, millis),
        ) {
            fired(context.actions, false, state.messages, context.context_id())
        } else {
            Seq::<ResponseModel>::empty()
        }),
        context.conditions.is_closing(context.advanced(state, millis)) ==> context.after_timer(
            state,
            millis,
        ) == StateModel::<T::Event>::fresh(),
        !state.open ==> context.after_timer(state, millis) == state && context.timer_responses(
            state,
            millis,
        ) == Seq::<ResponseModel>::empty(),
{
}

/// A state that was closed cannot be told from a new one: it holds no
/// event, its timers are at zero and it is closed. Closing it again
/// changes nothing.
pub proof fn law_close_resets<E>(state: StateModel<E>)
    ensures
        state.closed() == StateModel::<E>::fresh(),
        state.closed().closed() == state.closed(),
        state.closed().messages.len() == 0,
        state.closed().elapsed == 0 && state.closed().elapsed_since_last == 0,
        !state.closed().open,
        state.closed().settled(),
{
}

/// Between two inputs the state of a context is settled: its timers are
/// consistent, and if it is closed it is fresh.
pub proof fn law_contexts_stay_settled<T: Template>(
    context: BaseContextModel<T>,
    state: StateModel<T::Event>,
    event: Arc<T::Event>,
    millis: nat,
)
    requires
        state.settled(),
    ensures
        context.after_message(state, event).settled(),
        context.after_timer(state, millis).settled(),
{
}

/// The sum of the lengths of some ticks.
pub open spec fn total(ticks: Seq<nat>) -> nat
    decreases ticks.len(),
{
    if ticks.len() == 0 {
        0
    } else {
        total(ticks.drop_last()) + ticks.last()
    }
}

/// The state after the ticks have passed, one after the other.
pub open spec fn ticked_all<E>(state: StateModel<E>, ticks: Seq<nat>) -> StateModel<E>
    decreases ticks.len(),
{
    if ticks.len() == 0 {
        state
    } else {
        ticked_all(state, ticks.drop_last()).ticked(ticks.last())
    }
}

/// After any ticks, the time since the opening has grown by their sum, and
/// so has the time since the latest event; both stop at the largest value
/// that a counter holds. Nothing else changes.
pub proof fn law_timers_add_up<E>(state: StateModel<E>, ticks: Seq<nat>)
    requires
        state.elapsed <= u64::MAX,
        state.elapsed_since_last <= u64::MAX,
    ensures
        ticked_all(state, ticks).elapsed == saturated(state.elapsed + total(ticks)),
        ticked_all(state, ticks).elapsed_since_last == saturated(
            state.elapsed_since_last + total(ticks),
        ),
        state.elapsed + total(ticks) <= u64::MAX ==> ticked_all(state, ticks).elapsed
            == state.elapsed + total(ticks),
        state.elapsed_since_last + total(ticks) <= u64::MAX ==> ticked_all(
            state,
            ticks,
        ).elapsed_since_last == state.elapsed_since_last + total(ticks),
        ticked_all(state, ticks).messages == state.messages,
        ticked_all(state, ticks).open == state.open,
        ticked_all(state, ticks).opened_at == state.opened_at,
        ticked_all(state, ticks).last_message_at == state.last_message_at,
    decreases ticks.len(),
{
    if ticks.len() > 0 {
        law_timers_add_up(state, ticks.drop_last());
    }
}

/// For a state that has just opened, the time since the opening is the sum
/// of the ticks, and the time since the latest event is the sum of the
/// ticks after that event, as long as the sums fit a counter.
pub proof fn law_timer_monotonicity<E>(
    state: StateModel<E>,
    before: Seq<nat>,
    event: Arc<E>,
    after: Seq<nat>,
)
    requires
        total(before) + total(after) <= u64::MAX,
    ensures
        ticked_all(state.opened(), before).elapsed == total(before),
        ticked_all(ticked_all(state.opened(), before).with_message(event), after).elapsed == total(
            before,
        ) + total(after),
        ticked_all(
            ticked_all(state.opened(), before).with_message(event),
            after,
        ).elapsed_since_last == total(after),
{
    law_timers_add_up(state.opened(), before);
    law_timers_add_up(ticked_all(state.opened(), before).with_message(event), after);
}

/// A renew timeout counts from the latest event: after an event, the
/// timeout has expired exactly when the ticks since then sum up to it. So
/// a context that gets an event before each expiry never closes for it.
pub proof fn law_renew_timeout_counts_from_the_latest_event<T: Template>(
    conditions: ConditionsModel,
    state: StateModel<T::Event>,
    event: Arc<T::Event>,
    ticks: Seq<nat>,
    renew_timeout: nat,
)
    requires
        conditions.renew_timeout == Some(renew_timeout),
        renew_timeout <= u64::MAX,
        state.elapsed <= u64::MAX,
    ensures
        conditions.is_renew_timeout_expired(ticked_all(state.with_message(event), ticks))
            <==> total(ticks) >= renew_timeout,
{
    law_timers_add_up(state.with_message(event), ticks);
}

/// An open context closes with the tick that completes its renew timeout,
/// and is fresh then; a tick that completes no timeout of a context that
/// holds less than its maximum and no closing event leaves it open.
pub proof fn law_renew_timeout_closes<T: Template>(
    context: BaseContextModel<T>,
    state: StateModel<T::Event>,
    millis: nat,
    renew_timeout: nat,
)
    requires
        context.conditions.renew_timeout == Some(renew_timeout),
        renew_timeout <= u64::MAX,
        state.open,
        state.consistent(),
    ensures
        state.elapsed_since_last + millis >= renew_timeout ==> context.after_timer(state, millis)
            == StateModel::<T::Event>::fresh(),
        state.elapsed_since_last + millis < renew_timeout && state.elapsed + millis
            < context.conditions.timeout && !context.conditions.is_max_size_reached(state)
            && !context.conditions.is_closing_message(state) ==> context.after_timer(state, millis)
            == state.ticked(millis),
{
}

/// A table without entries holds the default exec condition, which runs
/// an action on no transition.
pub proof fn law_empty_table_is_default_condition(document: Document)
    requires
        document matches Document::Table(entries) && entries@.len() == 0,
    ensures
        exec_condition_of(document) == Ok::<ExecCondition, DecodeFailure>(ExecCondition::none()),
        !ExecCondition::none().on_opened && !ExecCondition::none().on_closed,
{
}

/// A table with an entry under a key other than `on_opened` and
/// `on_closed` holds no exec condition.
pub proof fn law_exec_condition_rejects_unknown_fields(document: Document, at: int)
    requires
        document matches Document::Table(entries) && 0 <= at < entries@.len() && !is_key(
            entries@[at].0,
            "on_opened"@,
        ) && !is_key(entries@[at].0, "on_closed"@),
    ensures
        exec_condition_of(document) is Err,
{
    let entries = document->Table_0@;
    assert(entries.take(at + 1).drop_last() =~= entries.take(at));
    assert(entries.take(at + 1).last() == entries[at]);
    assert(exec_condition_fields(entries.take(at + 1)) is Err);
    lemma_exec_condition_stops(entries, at + 1);
}

/// A table with an entry under a key that a message action does not have
/// holds no message action.
pub proof fn law_message_action_rejects_unknown_fields<T: Template>(document: Document, at: int)
    requires
        document matches Document::Table(entries) && 0 <= at < entries@.len() && !is_key(
            entries@[at].0,
            "name"@,
        ) && !is_key(entries@[at].0, "uuid"@) && !is_key(entries@[at].0, "values"@) && !is_key(
            entries@[at].0,
            "message"@,
        ) && !is_key(entries@[at].0, "when"@) && !is_key(entries@[at].0, "inject_mode"@),
    ensures
        message_action_of::<T>(document) is Err,
{
    let entries = document->Table_0@;
    assert(entries.take(at + 1).drop_last() =~= entries.take(at));
    assert(entries.take(at + 1).last() == entries[at]);
    assert(MessageActionParts::fields(entries.take(at + 1)) is Err);
    lemma_message_action_stops(entries, at + 1);
}

/// The contexts after the reactor has served the requests in their order.
pub open spec fn served<T: Template>(
    contexts: Seq<LinearContextModel<T>>,
    requests: Seq<Request<T::Event>>,
) -> Seq<LinearContextModel<T>>
    decreases requests.len(),
{
    if requests.len() == 0 {
        contexts
    } else {
        after_request(served(contexts, requests.drop_last()), requests.last())
    }
}

/// A context after it has handled, of the requests in their order, every
/// tick and every event that it takes.
pub open spec fn served_alone<T: Template>(
    context: LinearContextModel<T>,
    requests: Seq<Request<T::Event>>,
) -> LinearContextModel<T>
    decreases requests.len(),
{
    if requests.len() == 0 {
        context
    } else {
        let before = served_alone(context, requests.drop_last());
        match requests.last() {
            Request::Message(event) => if takes(before, event) {
                before.after_message(event)
            } else {
                before
            },
            Request::Timer(tick) => before.after_timer(tick.0 as nat),
            Request::Exit => before,
        }
    }
}

/// Whatever the requests, a context sees exactly the events that it
/// takes, each once and in the order of the stream, and every tick; what
/// the other contexts see does not touch it, and its policy and its place
/// among the contexts stay as they are.
pub proof fn law_contexts_see_their_events<T: Template>(
    contexts: Seq<LinearContextModel<T>>,
    requests: Seq<Request<T::Event>>,
)
    ensures
        served(contexts, requests).len() == contexts.len(),
        forall|i: int|
            0 <= i < contexts.len() ==> (#[trigger] served(contexts, requests)[i]) == served_alone(
                contexts[i],
                requests,
            ),
        forall|i: int|
            0 <= i < contexts.len() ==> (#[trigger] served(contexts, requests)[i]).base
                == contexts[i].base,
    decreases requests.len(),
{
    if requests.len() > 0 {
        law_contexts_see_their_events(contexts, requests.drop_last());
        let before = served(contexts, requests.drop_last());
        assert forall|i: int| 0 <= i < contexts.len() implies (#[trigger] served(
            contexts,
            requests,
        )[i]) == served_alone(contexts[i], requests) && served(contexts, requests)[i].base
            == contexts[i].base by {
            assert(before[i] == served_alone(contexts[i], requests.drop_last()));
        }
    }
}

} // verus!
