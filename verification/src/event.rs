//! The capability an event has to offer to be correlated.

use vstd::prelude::*;
use crate::support::text_eq;

verus! {

/// What the engine can observe of an event.
#[verifier::ext_equal]
pub struct EventModel {
    /// The stable id of the event.
    pub uuid: Seq<char>,
    /// The classification id, if the event was classified.
    pub name: Option<Seq<char>>,
    /// The free-form message.
    pub message: Seq<char>,
    /// The key/value fields.
    pub values: Map<Seq<char>, Seq<char>>,
}

impl EventModel {
    /// The event that `Event::new` creates.
    pub open spec fn fresh(uuid: Seq<char>, message: Seq<char>) -> EventModel {
        EventModel { uuid, name: None, message, values: Map::empty() }
    }

    /// The ids by which patterns can match the event: the uuid first, then
    /// the name if there is one.
    pub open spec fn ids(self) -> Seq<Seq<char>> {
        match self.name {
            Some(name) => seq![self.uuid, name],
            None => seq![self.uuid],
        }
    }

    pub open spec fn with_name(self, name: Option<Seq<char>>) -> EventModel {
        EventModel { name, ..self }
    }

    pub open spec fn with_message(self, message: Seq<char>) -> EventModel {
        EventModel { message, ..self }
    }

    pub open spec fn with_value(self, key: Seq<char>, value: Seq<char>) -> EventModel {
        EventModel { values: self.values.insert(key, value), ..self }
    }
}

/// The view of an optional string slice.
pub open spec fn opt_text(text: Option<&str>) -> Option<Seq<char>> {
    match text {
        Some(t) => Some(t@),
        None => None,
    }
}

/// The ids of an event, borrowed from it.
pub struct EventIds<'a> {
    pub uuid: &'a str,
    pub name: Option<&'a str>,
}

impl<'a> View for EventIds<'a> {
    type V = Seq<Seq<char>>;

    open spec fn view(&self) -> Seq<Seq<char>> {
        match self.name {
            Some(name) => seq![self.uuid@, name@],
            None => seq![self.uuid@],
        }
    }
}

impl<'a> EventIds<'a> {
    /// Starts a walk over the ids, uuid first.
    pub fn into_iter(self) -> (iter: EventIdsIterator<'a>)
        ensures
            iter.remaining() == self@,
    {
        let iter = EventIdsIterator { ids: self, state: 0 };
        assert(iter.ids@.skip(0) =~= iter.ids@);
        iter
    }

    /// Whether `pattern` equals one of the ids.
    pub fn contains(&self, pattern: &str) -> (found: bool)
        ensures
            found == self@.contains(pattern@),
    {
        if text_eq(self.uuid, pattern) {
            assert(self@[0] == pattern@);
            return true;
        }
        match self.name {
            Some(name) => {
                let found = text_eq(name, pattern);
                assert(found ==> self@[1] == pattern@);
                found
            },
            None => false,
        }
    }
}

/// A walk over the ids of an event.
pub struct EventIdsIterator<'ids> {
    ids: EventIds<'ids>,
    state: u8,
}

impl<'a> EventIdsIterator<'a> {
    /// The ids that the walk has not reached yet.
    pub closed spec fn remaining(&self) -> Seq<Seq<char>> {
        if self.state as int <= self.ids@.len() {
            self.ids@.skip(self.state as int)
        } else {
            Seq::empty()
        }
    }

    /// Yields the next id, or `None` when all were yielded.
    pub fn next(&mut self) -> (id: Option<&'a str>)
        ensures
            old(self).remaining().len() == 0 ==> id is None && final(self).remaining().len() == 0,
            old(self).remaining().len() > 0 ==> id is Some
                && id->0@ == old(self).remaining()[0]
                && final(self).remaining() == old(self).remaining().drop_first(),
    {
        if self.state == 0 {
            self.state = 1;
            assert(self.ids@.skip(1) =~= self.ids@.skip(0).drop_first());
            Some(self.ids.uuid)
        } else if self.state == 1 {
            self.state = 2;
            match self.ids.name {
                Some(name) => {
                    assert(self.ids@.skip(2) =~= self.ids@.skip(1).drop_first());
                    Some(name)
                },
                None => None,
            }
        } else {
            None
        }
    }
}

/// An event as the engine needs it: identified by a uuid and optionally by
/// a name, carrying key/value fields and a message.
pub trait Event: Sized + Send + Sync + Clone {
    /// What the engine observes of the event.
    spec fn model(&self) -> EventModel;

    /// The value stored under `key`.
    fn get(&self, key: &str) -> (value: Option<&str>)
        ensures
            value is Some == self.model().values.contains_key(key@),
            value is Some ==> self.model().values[key@] == value->0@,
    ;

    fn uuid(&self) -> (uuid: &str)
        ensures
            uuid@ == self.model().uuid,
    ;

    /// The ids by which patterns can match this event.
    fn ids(&self) -> (ids: EventIds<'_>)
        ensures
            ids@ == self.model().ids(),
    ;

    /// A new event with no name and no fields.
    fn new(uuid: &str, message: &str) -> (event: Self)
        ensures
            event.model() == EventModel::fresh(uuid@, message@),
    ;

    fn set_name(&mut self, name: Option<&str>)
        ensures
            final(self).model() == old(self).model().with_name(opt_text(name)),
    ;

    fn name(&self) -> (name: Option<&str>)
        ensures
            opt_text(name) == self.model().name,
    ;

    /// Stores `value` under `key`, replacing what was there.
    fn set(&mut self, key: &str, value: &str)
        ensures
            final(self).model() == old(self).model().with_value(key@, value@),
    ;

    fn set_message(&mut self, message: &str)
        ensures
            final(self).model() == old(self).model().with_message(message@),
    ;

    fn message(&self) -> (message: &str)
        ensures
            message@ == self.model().message,
    ;
}

} // verus!
