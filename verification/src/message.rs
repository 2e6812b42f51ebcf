//! A plain in-memory event.

use vstd::prelude::*;
use crate::event::{opt_text, Event, EventIds, EventModel};
use crate::support::text_eq;

verus! {

/// The map that a list of assignments amounts to: a later assignment of a
/// key replaces an earlier one.
pub open spec fn pairs_map(pairs: Seq<(String, String)>) -> Map<Seq<char>, Seq<char>>
    decreases pairs.len(),
{
    if pairs.len() == 0 {
        Map::empty()
    } else {
        pairs_map(pairs.drop_last()).insert(pairs.last().0@, pairs.last().1@)
    }
}

/// A key that no assignment names is not in the map.
pub proof fn lemma_pairs_absent(pairs: Seq<(String, String)>, key: Seq<char>)
    requires
        forall|j: int| 0 <= j < pairs.len() ==> (#[trigger] pairs[j]).0@ != key,
    ensures
        !pairs_map(pairs).contains_key(key),
    decreases pairs.len(),
{
    if pairs.len() > 0 {
        let front = pairs.drop_last();
        assert forall|j: int| 0 <= j < front.len() implies (#[trigger] front[j]).0@ != key by {
            assert(front[j] == pairs[j]);
        }
        lemma_pairs_absent(front, key);
        assert(pairs.last() == pairs[pairs.len() - 1]);
    }
}

/// The last assignment of a key gives its value.
pub proof fn lemma_pairs_last_wins(pairs: Seq<(String, String)>, key: Seq<char>, at: int)
    requires
        0 <= at < pairs.len(),
        pairs[at].0@ == key,
        forall|j: int| at < j < pairs.len() ==> (#[trigger] pairs[j]).0@ != key,
    ensures
        pairs_map(pairs).contains_key(key),
        pairs_map(pairs)[key] == pairs[at].1@,
    decreases pairs.len(),
{
    let front = pairs.drop_last();
    assert(pairs.last() == pairs[pairs.len() - 1]);
    if at < pairs.len() - 1 {
        assert(front[at] == pairs[at]);
        assert forall|j: int| at < j < front.len() implies (#[trigger] front[j]).0@ != key by {
            assert(front[j] == pairs[j]);
        }
        lemma_pairs_last_wins(front, key, at);
    }
}

/// The field of a classified log message that holds the uuid of its class.
pub const CLASSIFIER_UUID: &'static str = ".classifier.uuid";

/// The field of a classified log message that holds the name of its class.
pub const CLASSIFIER_CLASS: &'static str = ".classifier.class";

/// The field under which a log message carries its text.
pub const MESSAGE: &'static str = "MESSAGE";

/// An event held in memory.
#[derive(Clone, Debug)]
pub struct Message {
    uuid: String,
    name: Option<String>,
    message: String,
    values: Vec<(String, String)>,
}

/// The view of an optional string.
pub open spec fn opt_string(text: Option<String>) -> Option<Seq<char>> {
    match text {
        Some(t) => Some(t@),
        None => None,
    }
}

impl Message {
    /// Every assignment made to the event's fields, oldest first. The latest
    /// assignment of a key is its value.
    pub fn values(&self) -> (values: &Vec<(String, String)>)
        ensures
            pairs_map(values@) == self.model().values,
    {
        &self.values
    }
}

impl Message {
    /// The event that a classified log message stands for: its uuid is
    /// the uuid of the class and its name the name of the class, and it
    /// carries every field of the log message. A log message without the
    /// uuid of a class stands for no event.
    pub fn classified(values: Vec<(String, String)>, message: &str) -> (event: Option<Message>)
        ensures
            event is Some == pairs_map(values@).contains_key(CLASSIFIER_UUID@),
            event is Some ==> event->0.model() == (EventModel {
                uuid: pairs_map(values@)[CLASSIFIER_UUID@],
                name: if pairs_map(values@).contains_key(CLASSIFIER_CLASS@) {
                    Some(pairs_map(values@)[CLASSIFIER_CLASS@])
                } else {
                    None
                },
                message: message@,
                values: pairs_map(values@),
            }),
    {
        let uuid = match lookup(&values, CLASSIFIER_UUID) {
            Some(uuid) => uuid.to_owned(),
            None => {
                return None;
            },
        };
        let name = match lookup(&values, CLASSIFIER_CLASS) {
            Some(name) => Some(name.to_owned()),
            None => None,
        };
        Some(Message { uuid, name, message: message.to_owned(), values })
    }

    /// The fields of the log message that carries the event: the fields of
    /// the event, and then its text under `MESSAGE`.
    pub fn log_fields(&self) -> (fields: Vec<(String, String)>)
        ensures
            pairs_map(fields@) == self.model().values.insert(MESSAGE@, self.model().message),
    {
        let mut fields: Vec<(String, String)> = Vec::new();
        let mut i: usize = 0;
        assert(self.values@.take(0) =~= fields@);
        while i < self.values.len()
            invariant
                i <= self.values.len(),
                fields@.len() == i,
                forall|j: int|
                    0 <= j < i ==> (#[trigger] fields@[j]).0@ == self.values@[j].0@ && fields@[j].1@
                        == self.values@[j].1@,
            decreases self.values.len() - i,
        {
            fields.push((self.values[i].0.clone(), self.values[i].1.clone()));
            i += 1;
        }
        proof {
            lemma_pairs_map_by_views(fields@, self.values@);
        }
        let ghost copied = fields@;
        fields.push((MESSAGE.to_owned(), self.message.clone()));
        assert(fields@.drop_last() =~= copied);
        fields
    }
}

/// The value of the latest assignment of `key`.
fn lookup<'a>(values: &'a Vec<(String, String)>, key: &str) -> (value: Option<&'a str>)
    ensures
        value is Some == pairs_map(values@).contains_key(key@),
        value is Some ==> pairs_map(values@)[key@] == value->0@,
{
    let mut i: usize = values.len();
    while i > 0
        invariant
            i <= values.len(),
            forall|j: int| i <= j < values.len() ==> (#[trigger] values@[j]).0@ != key@,
        decreases i,
    {
        i -= 1;
        if text_eq(values[i].0.as_str(), key) {
            proof {
                lemma_pairs_last_wins(values@, key@, i as int);
            }
            return Some(values[i].1.as_str());
        }
    }
    proof {
        lemma_pairs_absent(values@, key@);
    }
    None
}

/// Lists of assignments with the same texts amount to the same map.
pub proof fn lemma_pairs_map_by_views(first: Seq<(String, String)>, second: Seq<(String, String)>)
    requires
        first.len() == second.len(),
        forall|j: int|
            0 <= j < first.len() ==> (#[trigger] first[j]).0@ == second[j].0@ && first[j].1@
                == second[j].1@,
    ensures
        pairs_map(first) == pairs_map(second),
    decreases first.len(),
{
    if first.len() > 0 {
        let front = first.drop_last();
        let other = second.drop_last();
        assert forall|j: int| 0 <= j < front.len() implies (#[trigger] front[j]).0@ == other[j].0@
            && front[j].1@ == other[j].1@ by {
            assert(front[j] == first[j]);
            assert(other[j] == second[j]);
        }
        lemma_pairs_map_by_views(front, other);
        assert(first.last() == first[first.len() - 1]);
        assert(second.last() == second[second.len() - 1]);
    }
}

impl Event for Message {
    closed spec fn model(&self) -> EventModel {
        EventModel {
            uuid: self.uuid@,
            name: opt_string(self.name),
            message: self.message@,
            values: pairs_map(self.values@),
        }
    }

    fn get(&self, key: &str) -> (value: Option<&str>) {
        lookup(&self.values, key)
    }

    fn uuid(&self) -> (uuid: &str) {
        self.uuid.as_str()
    }

    fn ids(&self) -> (ids: EventIds<'_>) {
        let name: Option<&str> = match &self.name {
            Some(n) => Some(n.as_str()),
            None => None,
        };
        EventIds { uuid: self.uuid.as_str(), name }
    }

    fn new(uuid: &str, message: &str) -> (event: Self) {
        let event = Message {
            uuid: uuid.to_owned(),
            name: None,
            message: message.to_owned(),
            values: Vec::new(),
        };
        assert(event.model() =~= EventModel::fresh(uuid@, message@));
        event
    }

    fn set_name(&mut self, name: Option<&str>) {
        self.name = match name {
            Some(n) => Some(n.to_owned()),
            None => None,
        };
    }

    fn name(&self) -> (name: Option<&str>) {
        match &self.name {
            Some(n) => Some(n.as_str()),
            None => None,
        }
    }

    fn set(&mut self, key: &str, value: &str) {
        self.values.push((key.to_owned(), value.to_owned()));
        proof {
            let pairs = self.values@;
            assert(pairs.drop_last() =~= old(self).values@);
        }
    }

    fn set_message(&mut self, message: &str) {
        self.message = message.to_owned();
    }

    fn message(&self) -> (message: &str) {
        self.message.as_str()
    }
}

/// Builds a `Message` step by step.
pub struct MessageBuilder {
    message: Message,
}

impl MessageBuilder {
    /// What `build` would return now.
    pub closed spec fn model(&self) -> EventModel {
        self.message.model()
    }

    pub fn new(uuid: &str, message: &str) -> (builder: Self)
        ensures
            builder.model() == EventModel::fresh(uuid@, message@),
    {
        MessageBuilder { message: Message::new(uuid, message) }
    }

    pub fn name(self, name: Option<&str>) -> (builder: Self)
        ensures
            builder.model() == self.model().with_name(opt_text(name)),
    {
        let mut message = self.message;
        message.set_name(name);
        MessageBuilder { message }
    }

    pub fn pair(self, key: &str, value: &str) -> (builder: Self)
        ensures
            builder.model() == self.model().with_value(key@, value@),
    {
        let mut message = self.message;
        message.set(key, value);
        MessageBuilder { message }
    }

    pub fn build(self) -> (message: Message)
        ensures
            message.model() == self.model(),
    {
        self.message
    }
}

} // verus!
