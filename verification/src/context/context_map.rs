//! The contexts of a correlator, with an index from pattern to context.

use vstd::prelude::*;
use std::sync::Arc;
use crate::config::{config_models, ContextConfig, ContextConfigModel};
use crate::context::linear::LinearContextModel;
use crate::context::Context;
use crate::dispatcher::{response_models, Response, ResponseModel};
use crate::event::Event;
use crate::support::{share, text_eq};
use crate::template::Template;
use crate::timer::TimerEvent;

verus! {

/// Whether a context with the given patterns takes an event with the given
/// ids: it takes every event if it has no pattern, and else those of which
/// one id is among its patterns.
pub open spec fn pattern_matches(patterns: Seq<Seq<char>>, ids: Seq<Seq<char>>) -> bool {
    patterns.len() == 0 || exists|k: int| 0 <= k < ids.len() && patterns.contains(#[trigger] ids[k])
}

/// Whether the numbers grow from each to the next.
pub open spec fn increasing(indices: Seq<usize>) -> bool {
    forall|a: int, b: int| 0 <= a < b < indices.len() ==> indices[a] < indices[b]
}

/// Whether `indices` names exactly the contexts that take an event with
/// the given ids, each once and in the order of their insertion.
pub open spec fn is_delivery<T: Template>(
    indices: Seq<usize>,
    contexts: Seq<LinearContextModel<T>>,
    ids: Seq<Seq<char>>,
) -> bool {
    &&& increasing(indices)
    &&& forall|i: usize| #[trigger]
        indices.contains(i) <==> (i < contexts.len() && pattern_matches(
            contexts[i as int].base.patterns(),
            ids,
        ))
}

/// The views of a sequence of contexts.
pub open spec fn context_models<T: Template>(contexts: Seq<Context<T>>) -> Seq<
    LinearContextModel<T>,
> {
    contexts.map_values(|c: Context<T>| c@)
}

/// Whether the index has an entry for the key.
pub open spec fn has_entry(map: Seq<(String, Vec<usize>)>, key: Seq<char>) -> bool {
    exists|k: int| 0 <= k < map.len() && (#[trigger] map[k]).0@ == key
}

/// A single id matches like the pattern list holding it.
pub proof fn lemma_matches_one(patterns: Seq<Seq<char>>, id: Seq<char>)
    ensures
        pattern_matches(patterns, seq![id]) <==> (patterns.len() == 0 || patterns.contains(id)),
{
    let ids = seq![id];
    if patterns.contains(id) {
        assert(patterns.contains(ids[0]));
    }
}

/// Without ids, only a context without patterns takes the event.
pub proof fn lemma_matches_none(patterns: Seq<Seq<char>>)
    ensures
        pattern_matches(patterns, Seq::empty()) <==> patterns.len() == 0,
{
}

/// Two ids match where one of them does.
pub proof fn lemma_matches_two(patterns: Seq<Seq<char>>, first: Seq<char>, second: Seq<char>)
    ensures
        pattern_matches(patterns, seq![first, second]) <==> (pattern_matches(patterns, seq![first])
            || pattern_matches(patterns, seq![second])),
{
    let both = seq![first, second];
    lemma_matches_one(patterns, first);
    lemma_matches_one(patterns, second);
    if patterns.contains(first) {
        assert(patterns.contains(both[0]));
    }
    if patterns.contains(second) {
        assert(patterns.contains(both[1]));
    }
}

/// Finds the entry of a key in the index.
fn find_entry(map: &Vec<(String, Vec<usize>)>, key: &str) -> (position: Option<usize>)
    ensures
        position is Some ==> position->0 < map.len() && map@[position->0 as int].0@ == key@,
        position is None ==> !has_entry(map@, key@),
{
    let mut k: usize = 0;
    while k < map.len()
        invariant
            k <= map.len(),
            forall|j: int| 0 <= j < k ==> (#[trigger] map@[j]).0@ != key@,
        decreases map.len() - k,
    {
        if text_eq(map[k].0.as_str(), key) {
            return Some(k);
        }
        k += 1;
    }
    None
}

/// Merges two growing lists into one that holds each number of either once.
fn merge(first: &Vec<usize>, second: &Vec<usize>) -> (merged: Vec<usize>)
    requires
        increasing(first@),
        increasing(second@),
    ensures
        increasing(merged@),
        forall|x: usize| #[trigger]
            merged@.contains(x) <==> (first@.contains(x) || second@.contains(x)),
{
    let mut merged: Vec<usize> = Vec::new();
    let mut i: usize = 0;
    let mut j: usize = 0;
    while i < first.len() || j < second.len()
        invariant
            i <= first.len(),
            j <= second.len(),
            increasing(first@),
            increasing(second@),
            increasing(merged@),
            forall|k: int|
                0 <= k < merged@.len() && i < first.len() ==> #[trigger] merged@[k] < first@[i as int],
            forall|k: int|
                0 <= k < merged@.len() && j < second.len() ==> #[trigger] merged@[k] < second@[j as int],
            forall|x: usize| #[trigger]
                merged@.contains(x) <==> (first@.take(i as int).contains(x) || second@.take(
                    j as int,
                ).contains(x)),
        decreases (first.len() - i) + (second.len() - j),
    {
        let ghost before = merged@;
        let ghost old_i = i as int;
        let ghost old_j = j as int;
        let next: usize;
        if j >= second.len() || (i < first.len() && first[i] < second[j]) {
            next = first[i];
            i += 1;
        } else if i >= first.len() || second[j] < first[i] {
            next = second[j];
            j += 1;
        } else {
            next = first[i];
            i += 1;
            j += 1;
        }
        merged.push(next);
        proof {
            assert(merged@ == before.push(next));
            assert forall|x: usize| #[trigger]
                merged@.contains(x) <==> (first@.take(i as int).contains(x) || second@.take(
                    j as int,
                ).contains(x)) by {
                if merged@.contains(x) {
                    let k = choose|k: int| 0 <= k < merged@.len() && merged@[k] == x;
                    if k < before.len() {
                        assert(before[k] == x);
                        assert(before.contains(x));
                        if first@.take(old_i).contains(x) {
                            let m = choose|m: int| 0 <= m < old_i && first@.take(old_i)[m] == x;
                            assert(first@.take(i as int)[m] == x);
                        } else {
                            let m = choose|m: int| 0 <= m < old_j && second@.take(old_j)[m] == x;
                            assert(second@.take(j as int)[m] == x);
                        }
                    } else {
                        assert(x == next);
                        if i as int > old_i && first@[old_i] == next {
                            assert(first@.take(i as int)[old_i] == x);
                        } else {
                            assert(second@.take(j as int)[old_j] == x);
                        }
                    }
                }
                if first@.take(i as int).contains(x) {
                    let m = choose|m: int| 0 <= m < i && first@.take(i as int)[m] == x;
                    if m < old_i {
                        assert(first@.take(old_i)[m] == x);
                        assert(first@.take(old_i).contains(x));
                        assert(before.contains(x));
                        let k = choose|k: int| 0 <= k < before.len() && before[k] == x;
                        assert(merged@[k] == x);
                    } else {
                        assert(x == next);
                        assert(merged@[before.len() as int] == x);
                    }
                }
                if second@.take(j as int).contains(x) {
                    let m = choose|m: int| 0 <= m < j && second@.take(j as int)[m] == x;
                    if m < old_j {
                        assert(second@.take(old_j)[m] == x);
                        assert(second@.take(old_j).contains(x));
                        assert(before.contains(x));
                        let k = choose|k: int| 0 <= k < before.len() && before[k] == x;
                        assert(merged@[k] == x);
                    } else {
                        assert(x == next);
                        assert(merged@[before.len() as int] == x);
                    }
                }
            }
        }
    }
    proof {
        assert(first@.take(i as int) =~= first@);
        assert(second@.take(j as int) =~= second@);
    }
    merged
}

/// Whether the context takes the event.
pub open spec fn takes<T: Template>(context: LinearContextModel<T>, event: Arc<T::Event>) -> bool {
    pattern_matches(context.base.patterns(), event.model().ids())
}

/// The contexts after `event` was delivered: each context that takes the
/// event has handled it, the others are as they were.
pub open spec fn after_message<T: Template>(
    contexts: Seq<LinearContextModel<T>>,
    event: Arc<T::Event>,
) -> Seq<LinearContextModel<T>> {
    Seq::new(
        contexts.len(),
        |i: int|
            if takes(contexts[i], event) {
                contexts[i].after_message(event)
            } else {
                contexts[i]
            },
    )
}

/// What the first `count` contexts send when `event` is delivered: the
/// responses of each context that takes the event, in the order of the
/// contexts.
pub open spec fn message_responses<T: Template>(
    contexts: Seq<LinearContextModel<T>>,
    event: Arc<T::Event>,
    count: nat,
) -> Seq<ResponseModel>
    decreases count,
{
    if count == 0 {
        Seq::empty()
    } else {
        let context = contexts[count - 1];
        message_responses(contexts, event, (count - 1) as nat) + (if takes(context, event) {
            context.message_responses(event)
        } else {
            Seq::empty()
        })
    }
}

/// The contexts after a tick of `millis` has passed in each of them.
pub open spec fn after_timer<T: Template>(contexts: Seq<LinearContextModel<T>>, millis: nat)
    -> Seq<LinearContextModel<T>> {
    Seq::new(contexts.len(), |i: int| contexts[i].after_timer(millis))
}

/// What the first `count` contexts send when a tick of `millis` passes, in
/// the order of the contexts.
pub open spec fn timer_responses<T: Template>(
    contexts: Seq<LinearContextModel<T>>,
    millis: nat,
    count: nat,
) -> Seq<ResponseModel>
    decreases count,
{
    if count == 0 {
        Seq::empty()
    } else {
        timer_responses(contexts, millis, (count - 1) as nat) + contexts[count
            - 1].timer_responses(millis)
    }
}

/// Contexts that do not take the event send nothing for it.
pub proof fn lemma_message_responses_skip<T: Template>(
    contexts: Seq<LinearContextModel<T>>,
    event: Arc<T::Event>,
    from: nat,
    to: nat,
)
    requires
        from <= to <= contexts.len(),
        forall|i: int| from <= i < to ==> !takes(#[trigger] contexts[i], event),
    ensures
        message_responses(contexts, event, to) == message_responses(contexts, event, from),
    decreases to - from,
{
    if from < to {
        lemma_message_responses_skip(contexts, event, from, (to - 1) as nat);
        assert(!takes(contexts[to - 1], event));
        assert(message_responses(contexts, event, to) =~= message_responses(
            contexts,
            event,
            (to - 1) as nat,
        ));
    }
}

/// The index of some contexts is the index of any contexts with the same
/// patterns.
pub proof fn lemma_index_ignores_state<T: Template>(
    map: Seq<(String, Vec<usize>)>,
    wildcards: Seq<usize>,
    contexts: Seq<LinearContextModel<T>>,
    others: Seq<LinearContextModel<T>>,
)
    requires
        is_index(map, wildcards, contexts),
        others.len() == contexts.len(),
        forall|i: int| 0 <= i < contexts.len() ==> (#[trigger] others[i]).base == contexts[i].base,
    ensures
        is_index(map, wildcards, others),
{
    assert forall|k: int| 0 <= k < map.len() implies is_delivery(
        (#[trigger] map[k]).1@,
        others,
        seq![map[k].0@],
    ) by {
        let list = map[k].1@;
        assert(is_delivery(list, contexts, seq![map[k].0@]));
        assert forall|i: usize| #[trigger]
            list.contains(i) <==> (i < others.len() && pattern_matches(
                others[i as int].base.patterns(),
                seq![map[k].0@],
            )) by {
            if i < others.len() {
                assert(others[i as int].base == contexts[i as int].base);
            }
        }
    }
    assert forall|i: usize| #[trigger]
        wildcards.contains(i) <==> (i < others.len() && pattern_matches(
            others[i as int].base.patterns(),
            Seq::empty(),
        )) by {
        if i < others.len() {
            assert(others[i as int].base == contexts[i as int].base);
        }
    }
    assert forall|i: int, p: Seq<char>|
        0 <= i < others.len() && #[trigger] others[i].base.patterns().contains(p) implies has_entry(
        map,
        p,
    ) by {
        assert(others[i].base == contexts[i].base);
        assert(contexts[i].base.patterns().contains(p));
    }
}

/// The contexts that some configurations describe, all closed.
pub open spec fn configured<T: Template>(configs: Seq<ContextConfigModel<T>>) -> Seq<
    LinearContextModel<T>,
> {
    configs.map_values(|c: ContextConfigModel<T>| c.context())
}

/// The contexts of a correlator in the order of their insertion, with an
/// index that finds the contexts of an event by the event's ids.
pub struct ContextMap<T: Template> {
    /// For each pattern that a context names, the contexts that take an
    /// event with that id.
    map: Vec<(String, Vec<usize>)>,
    /// The contexts without patterns, which take every event.
    wildcards: Vec<usize>,
    contexts: Vec<Context<T>>,
}

impl<T: Template> View for ContextMap<T> {
    type V = Seq<LinearContextModel<T>>;

    closed spec fn view(&self) -> Seq<LinearContextModel<T>> {
        context_models(self.contexts@)
    }
}

/// Whether the index is the one of the contexts: every pattern of a context
/// has one entry, an entry lists the contexts that take an event with its
/// key as the only id, and the wildcard list names the contexts without
/// patterns.
pub open spec fn is_index<T: Template>(
    map: Seq<(String, Vec<usize>)>,
    wildcards: Seq<usize>,
    contexts: Seq<LinearContextModel<T>>,
) -> bool {
    &&& forall|k: int|
        0 <= k < map.len() ==> is_delivery((#[trigger] map[k]).1@, contexts, seq![map[k].0@])
    &&& forall|a: int, b: int|
        0 <= a < b < map.len() ==> (#[trigger] map[a]).0@ != (#[trigger] map[b]).0@
    &&& is_delivery(wildcards, contexts, Seq::empty())
    &&& forall|i: int, p: Seq<char>|
        0 <= i < contexts.len() && #[trigger] contexts[i].base.patterns().contains(p) ==> has_entry(
            map,
            p,
        )
}

/// The list of the contexts that take every event also serves an id that
/// no context names.
pub proof fn lemma_wildcards_serve<T: Template>(
    map: Seq<(String, Vec<usize>)>,
    wildcards: Seq<usize>,
    contexts: Seq<LinearContextModel<T>>,
    key: Seq<char>,
)
    requires
        is_index(map, wildcards, contexts),
        !has_entry(map, key),
    ensures
        is_delivery(wildcards, contexts, seq![key]),
{
    assert forall|i: usize| #[trigger]
        wildcards.contains(i) <==> (i < contexts.len() && pattern_matches(
            contexts[i as int].base.patterns(),
            seq![key],
        )) by {
        if i < contexts.len() {
            let patterns = contexts[i as int].base.patterns();
            lemma_matches_one(patterns, key);
            lemma_matches_none(patterns);
            if patterns.contains(key) {
                assert(has_entry(map, key));
            }
        }
    }
}

/// A list stays the delivery for its ids when a context that takes them is
/// inserted and its index is added to the list.
pub proof fn lemma_delivery_grows<T: Template>(
    indices: Seq<usize>,
    contexts: Seq<LinearContextModel<T>>,
    ids: Seq<Seq<char>>,
    context: LinearContextModel<T>,
    index: usize,
)
    requires
        is_delivery(indices, contexts, ids),
        index == contexts.len(),
        pattern_matches(context.base.patterns(), ids),
    ensures
        is_delivery(indices.push(index), contexts.push(context), ids),
{
    let grown = indices.push(index);
    let more = contexts.push(context);
    assert forall|a: int, b: int| 0 <= a < b < grown.len() implies grown[a] < grown[b] by {
        assert(indices.contains(indices[a]));
        if b < indices.len() {
            assert(indices[a] < indices[b]);
        }
    }
    assert forall|i: usize| #[trigger]
        grown.contains(i) <==> (i < more.len() && pattern_matches(
            more[i as int].base.patterns(),
            ids,
        )) by {
        if grown.contains(i) {
            let k = choose|k: int| 0 <= k < grown.len() && grown[k] == i;
            if k < indices.len() {
                assert(indices[k] == i);
                assert(indices.contains(i));
                assert(more[i as int] == contexts[i as int]);
            }
        }
        if i < more.len() && pattern_matches(more[i as int].base.patterns(), ids) {
            if i < contexts.len() {
                assert(more[i as int] == contexts[i as int]);
                assert(indices.contains(i));
                let k = choose|k: int| 0 <= k < indices.len() && indices[k] == i;
                assert(grown[k] == i);
            } else {
                assert(grown[indices.len() as int] == i);
            }
        }
    }
}

/// A list stays the delivery for its ids when a context that does not take
/// them is inserted.
pub proof fn lemma_delivery_stays<T: Template>(
    indices: Seq<usize>,
    contexts: Seq<LinearContextModel<T>>,
    ids: Seq<Seq<char>>,
    context: LinearContextModel<T>,
)
    requires
        is_delivery(indices, contexts, ids),
        !pattern_matches(context.base.patterns(), ids),
    ensures
        is_delivery(indices, contexts.push(context), ids),
{
    let more = contexts.push(context);
    assert forall|i: usize| #[trigger]
        indices.contains(i) <==> (i < more.len() && pattern_matches(
            more[i as int].base.patterns(),
            ids,
        )) by {
        if i < contexts.len() {
            assert(more[i as int] == contexts[i as int]);
        }
    }
}

/// Whether every number of every list of the index, and of the wildcard
/// list, is below `bound`.
pub open spec fn indices_below(map: Seq<(String, Vec<usize>)>, wildcards: Seq<usize>, bound: nat)
    -> bool {
    &&& forall|k: int, m: int|
        0 <= k < map.len() && 0 <= m < map[k].1@.len() ==> (#[trigger] map[k].1@[m]) < bound
    &&& forall|m: int| 0 <= m < wildcards.len() ==> (#[trigger] wildcards[m]) < bound
}

/// The index after a context with the given patterns, of which there is at
/// least one, was inserted at `index`: the entries of its patterns have
/// `index` added, and a pattern without an entry got one that starts from
/// the wildcard list.
pub open spec fn is_index_update(
    before: Seq<(String, Vec<usize>)>,
    after: Seq<(String, Vec<usize>)>,
    wildcards: Seq<usize>,
    index: usize,
    patterns: Seq<Seq<char>>,
) -> bool {
    &&& after.len() >= before.len()
    &&& forall|k: int|
        0 <= k < before.len() ==> (#[trigger] after[k]).0 == before[k].0 && after[k].1@ == (
        if patterns.contains(before[k].0@) {
            before[k].1@.push(index)
        } else {
            before[k].1@
        })
    &&& forall|k: int|
        before.len() <= k < after.len() ==> (#[trigger] after[k]).1@ == wildcards.push(index)
            && patterns.contains(after[k].0@) && !has_entry(before, after[k].0@)
    &&& forall|a: int, b: int|
        0 <= a < b < after.len() ==> (#[trigger] after[a]).0@ != (#[trigger] after[b]).0@
    &&& forall|j: int| 0 <= j < patterns.len() ==> has_entry(after, #[trigger] patterns[j])
}

/// Copies a list of indices.
fn copy_indices(indices: &Vec<usize>) -> (copy: Vec<usize>)
    ensures
        copy@ == indices@,
{
    let mut copy: Vec<usize> = Vec::new();
    let mut m: usize = 0;
    while m < indices.len()
        invariant
            m <= indices.len(),
            copy@ == indices@.take(m as int),
        decreases indices.len() - m,
    {
        copy.push(indices[m]);
        assert(copy@ =~= indices@.take(m + 1));
        m += 1;
    }
    assert(indices@.take(m as int) =~= indices@);
    copy
}

impl<T: Template> Default for ContextMap<T> {
    fn default() -> (map: ContextMap<T>)
        ensures
            map.wf(),
            map@ == Seq::<LinearContextModel<T>>::empty(),
    {
        ContextMap::new()
    }
}

impl<T: Template> ContextMap<T> {
    /// Adds the index of a new context without patterns to every list of
    /// the index.
    fn add_index_to_every_index_vectors(map: &mut Vec<(String, Vec<usize>)>, new_index: usize)
        ensures
            final(map)@.len() == old(map)@.len(),
            forall|k: int|
                0 <= k < old(map)@.len() ==> (#[trigger] final(map)@[k]).0 == old(map)@[k].0
                    && final(map)@[k].1@ == old(map)@[k].1@.push(new_index),
    {
        let mut k: usize = 0;
        while k < map.len()
            invariant
                k <= map.len(),
                map@.len() == old(map)@.len(),
                forall|j: int|
                    0 <= j < k ==> (#[trigger] map@[j]).0 == old(map)@[j].0 && map@[j].1@ == old(
                        map,
                    )@[j].1@.push(new_index),
                forall|j: int| k <= j < map@.len() ==> (#[trigger] map@[j]) == old(map)@[j],
            decreases map.len() - k,
        {
            map[k].1.push(new_index);
            k += 1;
        }
    }

    /// Adds the index of a new context to the entry of each of its
    /// patterns. A pattern without an entry gets one, which starts from the
    /// contexts that take every event.
    fn add_index_to_looked_up_index_vectors(
        map: &mut Vec<(String, Vec<usize>)>,
        wildcards: &Vec<usize>,
        new_index: usize,
        patterns: &[String],
    )
        requires
            indices_below(old(map)@, wildcards@, new_index as nat),
            forall|a: int, b: int|
                0 <= a < b < old(map)@.len() ==> (#[trigger] old(map)@[a]).0@ != (#[trigger] old(
                    map,
                )@[b]).0@,
        ensures
            is_index_update(
                old(map)@,
                final(map)@,
                wildcards@,
                new_index,
                crate::conditions::texts(patterns@),
            ),
    {
        let ghost before = map@;
        let ghost names = crate::conditions::texts(patterns@);
        let mut done: usize = 0;
        assert(names.take(0) =~= Seq::empty());
        while done < patterns.len()
            invariant
                done <= patterns.len(),
                names == crate::conditions::texts(patterns@),
                names.len() == patterns@.len(),
                before == old(map)@,
                indices_below(before, wildcards@, new_index as nat),
                is_index_update(before, map@, wildcards@, new_index, names.take(done as int)),
            decreases patterns.len() - done,
        {
            let pattern = &patterns[done];
            let ghost seen = names.take(done as int);
            let ghost more = names.take(done + 1);
            let ghost current = map@;
            assert(more =~= seen.push(pattern@));
            assert forall|q: Seq<char>| more.contains(q) <==> (seen.contains(q) || q == pattern@) by {
                if more.contains(q) {
                    let m = choose|m: int| 0 <= m < more.len() && more[m] == q;
                    if m < seen.len() {
                        assert(seen[m] == q);
                    }
                }
                if seen.contains(q) {
                    let m = choose|m: int| 0 <= m < seen.len() && seen[m] == q;
                    assert(more[m] == q);
                }
                if q == pattern@ {
                    assert(more[done as int] == q);
                }
            }
            match find_entry(map, pattern.as_str()) {
                Some(at) => {
                    let list = &map[at].1;
                    let present = list.len() > 0 && list[list.len() - 1] == new_index;
                    proof {
                        if (at as int) < before.len() {
                            if seen.contains(pattern@) {
                                assert(current[at as int].1@ == before[at as int].1@.push(new_index));
                                assert(present);
                            } else {
                                assert(current[at as int].1@ == before[at as int].1@);
                                assert(!present);
                            }
                        } else {
                            assert(current[at as int].1@ == wildcards@.push(new_index));
                            assert(present);
                            assert(seen.contains(pattern@));
                        }
                    }
                    if !present {
                        map[at].1.push(new_index);
                    }
                    proof {
                        assert forall|j: int| 0 <= j < more.len() implies has_entry(
                            map@,
                            #[trigger] more[j],
                        ) by {
                            if j < seen.len() {
                                assert(seen[j] == more[j]);
                                assert(has_entry(current, seen[j]));
                                let k = choose|k: int|
                                    0 <= k < current.len() && (#[trigger] current[k]).0@ == seen[j];
                                assert(map@[k].0@ == more[j]);
                            } else {
                                assert(map@[at as int].0@ == more[j]);
                            }
                        }
                        assert(is_index_update(before, map@, wildcards@, new_index, more));
                    }
                },
                None => {
                    let mut list = copy_indices(wildcards);
                    list.push(new_index);
                    map.push((pattern.clone(), list));
                    proof {
                        assert(!seen.contains(pattern@)) by {
                            if seen.contains(pattern@) {
                                let m = choose|m: int| 0 <= m < seen.len() && seen[m] == pattern@;
                                assert(has_entry(current, seen[m]));
                            }
                        }
                        assert(!has_entry(before, pattern@)) by {
                            if has_entry(before, pattern@) {
                                let k = choose|k: int|
                                    0 <= k < before.len() && (#[trigger] before[k]).0@ == pattern@;
                                assert(current[k].0@ == pattern@);
                                assert(has_entry(current, pattern@));
                            }
                        }
                        assert forall|k: int| 0 <= k < current.len() implies (#[trigger] map@[k])
                            == current[k] by {}
                        assert forall|a: int, b: int| 0 <= a < b < map@.len() implies (#[trigger] map@[a]).0@
                            != (#[trigger] map@[b]).0@ by {
                            if b == current.len() {
                                if map@[a].0@ == pattern@ {
                                    assert(current[a].0@ == pattern@);
                                    assert(has_entry(current, pattern@));
                                }
                            } else {
                                assert(map@[a] == current[a]);
                                assert(map@[b] == current[b]);
                            }
                        }
                        assert forall|j: int| 0 <= j < more.len() implies has_entry(
                            map@,
                            #[trigger] more[j],
                        ) by {
                            if j < seen.len() {
                                assert(seen[j] == more[j]);
                                assert(has_entry(current, seen[j]));
                                let k = choose|k: int|
                                    0 <= k < current.len() && (#[trigger] current[k]).0@ == seen[j];
                                assert(map@[k].0@ == more[j]);
                            } else {
                                assert(map@[current.len() as int].0@ == more[j]);
                            }
                        }
                        assert(is_index_update(before, map@, wildcards@, new_index, more));
                    }
                },
            }
            done += 1;
        }
        assert(names.take(done as int) =~= names);
    }

    /// Whether the index agrees with the contexts.
    pub closed spec fn wf(&self) -> bool {
        is_index(self.map@, self.wildcards@, self@)
    }

    /// A map without contexts.
    pub fn new() -> (map: ContextMap<T>)
        ensures
            map.wf(),
            map@ == Seq::<LinearContextModel<T>>::empty(),
    {
        let map = ContextMap { map: Vec::new(), wildcards: Vec::new(), contexts: Vec::new() };
        assert(map@ =~= Seq::<LinearContextModel<T>>::empty());
        map
    }

    /// The map of the contexts that the configurations describe, in the
    /// order of the configurations and all closed.
    pub fn from_configs(configs: Vec<ContextConfig<T>>) -> (map: ContextMap<T>)
        ensures
            map.wf(),
            map@ == configured(config_models(configs@)),
    {
        let mut context_map = ContextMap::new();
        let ghost all = config_models(configs@);
        assert(configured(all.take(0)) =~= Seq::<LinearContextModel<T>>::empty());
        for config in iter: configs
            invariant
                all == config_models(iter.seq()),
                context_map.wf(),
                context_map@ == configured(all.take(iter.index() as int)),
        {
            let ghost before = context_map@;
            context_map.insert(config.into_context());
            assert(context_map@ =~= configured(all.take(iter.index() + 1)));
        }
        assert(all.take(all.len() as int) =~= all);
        context_map
    }

    /// The number of contexts.
    pub fn len(&self) -> (len: usize)
        ensures
            len == self@.len(),
    {
        self.contexts.len()
    }

    /// The contexts in the order of their insertion.
    pub fn contexts(&self) -> (contexts: &Vec<Context<T>>)
        ensures
            context_models(contexts@) == self@,
    {
        &self.contexts
    }

    /// Brings the index up to date for a context that is inserted at
    /// `new_index`: a context without patterns is added to every list, one
    /// with patterns to the lists of its patterns.
    fn update_indices(
        map: &mut Vec<(String, Vec<usize>)>,
        wildcards: &mut Vec<usize>,
        new_index: usize,
        context: &Context<T>,
        Ghost(contexts): Ghost<Seq<LinearContextModel<T>>>,
    )
        requires
            is_index(old(map)@, old(wildcards)@, contexts),
            new_index == contexts.len(),
        ensures
            is_index(final(map)@, final(wildcards)@, contexts.push(context@)),
    {
        let patterns = context.patterns();
        let ghost names = context@.base.patterns();
        let ghost before = map@;
        let ghost more = contexts.push(context@);
        proof {
            assert forall|k: int, m: int|
                0 <= k < before.len() && 0 <= m < before[k].1@.len() implies (#[trigger] before[k].1@[m])
                < new_index by {
                assert(before[k].1@.contains(before[k].1@[m]));
            }
            assert forall|m: int| 0 <= m < wildcards@.len() implies (#[trigger] wildcards@[m])
                < new_index by {
                assert(wildcards@.contains(wildcards@[m]));
            }
        }
        if patterns.len() == 0 {
            Self::add_index_to_every_index_vectors(map, new_index);
            let ghost unnamed = wildcards@;
            wildcards.push(new_index);
            proof {
                assert forall|k: int| 0 <= k < map@.len() implies is_delivery(
                    (#[trigger] map@[k]).1@,
                    more,
                    seq![map@[k].0@],
                ) by {
                    assert(is_delivery(before[k].1@, contexts, seq![before[k].0@]));
                    lemma_delivery_grows(
                        before[k].1@,
                        contexts,
                        seq![before[k].0@],
                        context@,
                        new_index,
                    );
                }
                lemma_delivery_grows(unnamed, contexts, Seq::empty(), context@, new_index);
                assert forall|i: int, p: Seq<char>|
                    0 <= i < more.len() && #[trigger] more[i].base.patterns().contains(
                        p,
                    ) implies has_entry(map@, p) by {
                    assert(i < contexts.len());
                    assert(more[i] == contexts[i]);
                    assert(has_entry(before, p));
                    let k = choose|k: int| 0 <= k < before.len() && (#[trigger] before[k]).0@ == p;
                    assert(map@[k].0@ == p);
                }
            }
        } else {
            Self::add_index_to_looked_up_index_vectors(map, wildcards, new_index, patterns);
            proof {
                assert(names.len() > 0);
                assert forall|k: int| 0 <= k < map@.len() implies is_delivery(
                    (#[trigger] map@[k]).1@,
                    more,
                    seq![map@[k].0@],
                ) by {
                    let key = map@[k].0@;
                    lemma_matches_one(names, key);
                    if k < before.len() {
                        assert(is_delivery(before[k].1@, contexts, seq![before[k].0@]));
                        if names.contains(key) {
                            lemma_delivery_grows(
                                before[k].1@,
                                contexts,
                                seq![key],
                                context@,
                                new_index,
                            );
                        } else {
                            lemma_delivery_stays(before[k].1@, contexts, seq![key], context@);
                        }
                    } else {
                        lemma_wildcards_serve(before, wildcards@, contexts, key);
                        lemma_delivery_grows(wildcards@, contexts, seq![key], context@, new_index);
                    }
                }
                lemma_matches_none(names);
                lemma_delivery_stays(wildcards@, contexts, Seq::empty(), context@);
                assert forall|i: int, p: Seq<char>|
                    0 <= i < more.len() && #[trigger] more[i].base.patterns().contains(
                        p,
                    ) implies has_entry(map@, p) by {
                    if i < contexts.len() {
                        assert(more[i] == contexts[i]);
                        assert(has_entry(before, p));
                        let k = choose|k: int|
                            0 <= k < before.len() && (#[trigger] before[k]).0@ == p;
                        assert(map@[k].0@ == p);
                    } else {
                        let j = choose|j: int| 0 <= j < names.len() && names[j] == p;
                        assert(has_entry(map@, names[j]));
                    }
                }
            }
        }
    }

    /// Appends a context and enters it in the index.
    pub fn insert(&mut self, context: Context<T>)
        requires
            old(self).wf(),
        ensures
            final(self).wf(),
            final(self)@ == old(self)@.push(context@),
    {
        let index_of_last_context = self.contexts.len();
        let ghost contexts = self@;
        Self::update_indices(
            &mut self.map,
            &mut self.wildcards,
            index_of_last_context,
            &context,
            Ghost(contexts),
        );
        self.contexts.push(context);
        assert(self@ =~= old(self)@.push(context@));
    }

    /// The contexts that take an event with `key` as its only id.
    fn lookup(&self, key: &str) -> (indices: &Vec<usize>)
        requires
            self.wf(),
        ensures
            is_delivery(indices@, self@, seq![key@]),
    {
        match find_entry(&self.map, key) {
            Some(k) => &self.map[k].1,
            None => {
                proof {
                    lemma_wildcards_serve(self.map@, self.wildcards@, self@, key@);
                }
                &self.wildcards
            },
        }
    }

    /// The contexts to which `event` is delivered: those without patterns
    /// and those with one of the event's ids among their patterns, each
    /// once, in the order of their insertion.
    pub fn dispatch(&self, event: &T::Event) -> (indices: Vec<usize>)
        requires
            self.wf(),
        ensures
            is_delivery(indices@, self@, event.model().ids()),
    {
        let ids = event.ids();
        let by_uuid = self.lookup(ids.uuid);
        match ids.name {
            Some(name) => {
                let by_name = self.lookup(name);
                let indices = merge(by_uuid, by_name);
                proof {
                    assert(ids@ =~= seq![ids.uuid@, name@]);
                    assert forall|i: usize| #[trigger]
                        indices@.contains(i) <==> (i < self@.len() && pattern_matches(
                            self@[i as int].base.patterns(),
                            ids@,
                        )) by {
                        if i < self@.len() {
                            lemma_matches_two(self@[i as int].base.patterns(), ids.uuid@, name@);
                        }
                    }
                }
                indices
            },
            None => {
                let nothing: Vec<usize> = Vec::new();
                let indices = merge(by_uuid, &nothing);
                proof {
                    assert(ids@ =~= seq![ids.uuid@]);
                }
                indices
            },
        }
    }

    /// The contexts, for the caller to work on. The index stays in order
    /// as long as the caller leaves the number of the contexts and the
    /// policy of each as they are.
    pub fn contexts_mut(&mut self) -> (contexts: &mut Vec<Context<T>>)
        requires
            old(self).wf(),
        ensures
            context_models(contexts@) == old(self)@,
            final(self)@ == context_models(final(contexts)@),
            final(self)@.len() == old(self)@.len() && (forall|i: int|
                0 <= i < old(self)@.len() ==> (#[trigger] final(self)@[i]).base == old(
                    self,
                )@[i].base) ==> final(self).wf(),
    {
        proof {
            assert forall|others: Seq<LinearContextModel<T>>|
                others.len() == self@.len() && (forall|i: int|
                    0 <= i < self@.len() ==> (#[trigger] others[i]).base == self@[i].base)
                    implies is_index(self.map@, self.wildcards@, others) by {
                lemma_index_ignores_state(self.map@, self.wildcards@, self@, others);
            }
        }
        &mut self.contexts
    }

    /// The context at `index`.
    pub fn get(&self, index: usize) -> (context: Option<&Context<T>>)
        ensures
            context is Some == (index < self@.len()),
            context is Some ==> context->0@ == self@[index as int],
    {
        if index < self.contexts.len() {
            Some(&self.contexts[index])
        } else {
            None
        }
    }

    /// Delivers `event` to each context that takes it, in the order of
    /// their insertion and to each once.
    pub fn on_message(&mut self, event: Arc<T::Event>, responder: &mut Vec<Response<T::Event>>)
        requires
            old(self).wf(),
        ensures
            final(self).wf(),
            final(self)@ == after_message(old(self)@, event),
            response_models(final(responder)@) == response_models(old(responder)@)
                + message_responses(old(self)@, event, old(self)@.len()),
    {
        let indices = self.dispatch(&*event);
        let total = self.contexts.len();
        let ghost contexts = self@;
        let ghost before = response_models(responder@);
        let ghost count = contexts.len();
        assert(count == total);
        let mut k: usize = 0;
        proof {
            let bound = if indices@.len() > 0 {
                indices@[0] as nat
            } else {
                count
            };
            if indices@.len() > 0 {
                assert(indices@.contains(indices@[0]));
            }
            assert forall|i: int| 0 <= i < bound implies !takes(#[trigger] contexts[i], event) by {
                if takes(contexts[i], event) {
                    assert(i < count <= usize::MAX);
                    assert((i as usize) as int == i);
                    assert(indices@.contains(i as usize));
                    let m = choose|m: int| 0 <= m < indices@.len() && indices@[m] == i as usize;
                    assert(indices@[0] <= indices@[m]);
                }
            }
            lemma_message_responses_skip(contexts, event, 0, bound);
            assert(response_models(responder@) =~= before + Seq::<ResponseModel>::empty());
        }
        while k < indices.len()
            invariant
                k <= indices.len(),
                contexts == old(self)@,
                count == contexts.len(),
                is_delivery(indices@, contexts, event.model().ids()),
                count <= usize::MAX,
                self.map == old(self).map,
                self.wildcards == old(self).wildcards,
                self@.len() == count,
                forall|i: int|
                    0 <= i < count ==> (#[trigger] self@[i]) == (if takes(contexts[i], event) && (k
                        == indices@.len() || i < indices@[k as int]) {
                        contexts[i].after_message(event)
                    } else {
                        contexts[i]
                    }),
                response_models(responder@) == before + message_responses(
                    contexts,
                    event,
                    if k < indices@.len() {
                        indices@[k as int] as nat
                    } else {
                        count
                    },
                ),
            decreases indices.len() - k,
        {
            let index = indices[k];
            let ghost current = self@;
            let ghost sent = response_models(responder@);
            proof {
                assert(indices@.contains(index));
                assert(takes(contexts[index as int], event));
                assert(current[index as int] == contexts[index as int]);
                assert(self.contexts@[index as int]@ == current[index as int]);
            }
            self.contexts[index].on_message(share(&event), responder);
            proof {
                let next: nat = if k + 1 < indices@.len() {
                    indices@[k + 1] as nat
                } else {
                    count
                };
                if k + 1 < indices@.len() {
                    assert(indices@.contains(indices@[k + 1]));
                }
                assert forall|i: int| index < i < next implies !takes(
                    #[trigger] contexts[i],
                    event,
                ) by {
                    if takes(contexts[i], event) {
                        assert(i < count <= usize::MAX);
                        assert((i as usize) as int == i);
                        assert(indices@.contains(i as usize));
                        let m = choose|m: int| 0 <= m < indices@.len() && indices@[m] == i as usize;
                        if m <= k {
                            assert(indices@[m] <= indices@[k as int]);
                        } else {
                            assert(k + 1 < indices@.len());
                            assert(indices@[k + 1] <= indices@[m]);
                        }
                    }
                }
                lemma_message_responses_skip(contexts, event, (index + 1) as nat, next);
                assert(message_responses(contexts, event, (index + 1) as nat) == message_responses(
                    contexts,
                    event,
                    index as nat,
                ) + contexts[index as int].message_responses(event));
                assert(response_models(responder@) =~= before + message_responses(
                    contexts,
                    event,
                    next,
                ));
                assert(self@.len() == count);
                assert forall|i: int| 0 <= i < count implies (#[trigger] self@[i]) == (if takes(
                    contexts[i],
                    event,
                ) && (k + 1 == indices@.len() || i < indices@[k + 1]) {
                    contexts[i].after_message(event)
                } else {
                    contexts[i]
                }) by {
                    if i == index {
                        assert(self@[i] == self.contexts@[i]@);
                        if k + 1 < indices@.len() {
                            assert(indices@[k as int] < indices@[k + 1]);
                        }
                    } else {
                        assert(self@[i] == current[i]);
                        if index < i < next {
                            assert(!takes(contexts[i], event));
                        }
                    }
                }
            }
            k += 1;
        }
        proof {
            assert(self@ =~= after_message(contexts, event));
            lemma_index_ignores_state(self.map@, self.wildcards@, contexts, self@);
        }
    }

    /// Lets a tick pass in every context, in the order of their insertion.
    pub fn on_timer(&mut self, event: &TimerEvent, responder: &mut Vec<Response<T::Event>>)
        requires
            old(self).wf(),
        ensures
            final(self).wf(),
            final(self)@ == after_timer(old(self)@, event.0 as nat),
            response_models(final(responder)@) == response_models(old(responder)@)
                + timer_responses(old(self)@, event.0 as nat, old(self)@.len()),
    {
        let ghost contexts = self@;
        let ghost before = response_models(responder@);
        let ghost millis = event.0 as nat;
        let mut i: usize = 0;
        assert(response_models(responder@) =~= before + Seq::<ResponseModel>::empty());
        while i < self.contexts.len()
            invariant
                i <= self.contexts.len(),
                contexts == old(self)@,
                millis == event.0 as nat,
                self.map == old(self).map,
                self.wildcards == old(self).wildcards,
                self@.len() == contexts.len(),
                self.contexts@.len() == contexts.len(),
                forall|j: int|
                    0 <= j < contexts.len() ==> (#[trigger] self@[j]) == (if j < i {
                        contexts[j].after_timer(millis)
                    } else {
                        contexts[j]
                    }),
                response_models(responder@) == before + timer_responses(contexts, millis, i as nat),
            decreases self.contexts.len() - i,
        {
            let ghost current = self@;
            let ghost sent = timer_responses(contexts, millis, i as nat);
            assert(self.contexts@[i as int]@ == current[i as int]);
            self.contexts[i].on_timer(event, responder);
            proof {
                assert(response_models(responder@) =~= before + (sent + contexts[i as int].timer_responses(
                    millis,
                )));
                assert forall|j: int| 0 <= j < contexts.len() implies (#[trigger] self@[j]) == (if j
                    < i + 1 {
                    contexts[j].after_timer(millis)
                } else {
                    contexts[j]
                }) by {
                    if j == i {
                        assert(self@[j] == self.contexts@[j]@);
                    } else {
                        assert(self@[j] == current[j]);
                    }
                }
            }
            i += 1;
        }
        proof {
            assert(self@ =~= after_timer(contexts, millis));
            lemma_index_ignores_state(self.map@, self.wildcards@, contexts, self@);
        }
    }

    /// A walk over the contexts that take an event with `key` as its only
    /// id. It yields the index of each context, for `get` to resolve.
    pub fn contexts_iter_mut(&self, key: &str) -> (iter: Iterator<'_>)
        requires
            self.wf(),
        ensures
            is_delivery(iter.remaining(), self@, seq![key@]),
    {
        let ids = self.lookup(key);
        assert(ids@.skip(0) =~= ids@);
        Iterator { ids, pos: 0 }
    }
}

/// An iterator that hands out one item at a time.
pub trait StreamingIterator {
    type Item;

    fn next(&mut self) -> Option<Self::Item>;
}

/// A walk over the indices of some contexts of a `ContextMap`.
pub struct Iterator<'a> {
    ids: &'a Vec<usize>,
    pos: usize,
}

impl<'a> Iterator<'a> {
    /// The indices that the walk has not yielded yet.
    pub closed spec fn remaining(&self) -> Seq<usize> {
        if self.pos <= self.ids@.len() {
            self.ids@.skip(self.pos as int)
        } else {
            Seq::empty()
        }
    }
}

impl<'a> StreamingIterator for Iterator<'a> {
    type Item = usize;

    /// Yields the next index, or `None` when all were yielded.
    fn next(&mut self) -> (item: Option<usize>)
        ensures
            old(self).remaining().len() == 0 ==> item is None && final(self).remaining().len() == 0,
            old(self).remaining().len() > 0 ==> item == Some(old(self).remaining()[0])
                && final(self).remaining() == old(self).remaining().drop_first(),
    {
        if self.pos < self.ids.len() {
            let id = self.ids[self.pos];
            self.pos += 1;
            assert(self.ids@.skip(self.pos as int) =~= self.ids@.skip(self.pos - 1).drop_first());
            Some(id)
        } else {
            None
        }
    }
}

} // verus!
