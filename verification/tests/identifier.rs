use correlation::event::{Event, EventIds};
use correlation::identifier::{hyphenated_of, uuid_of_text};
use correlation::message::MessageBuilder;
use uuid::Uuid;

#[test]
fn a_uuid_is_written_in_five_groups_of_lower_case_digits() {
    assert_eq!(
        "185e96da-c00e-454b-b4fe-9d0a14a86335",
        hyphenated_of(0x185e96da_c00e_454b_b4fe_9d0a14a86335)
    );
    assert_eq!("00000000-0000-0000-0000-000000000000", hyphenated_of(0));
    assert_eq!("ffffffff-ffff-ffff-ffff-ffffffffffff", hyphenated_of(u128::MAX));
    assert_eq!("00000000-0000-0000-0000-00000000abcd", hyphenated_of(0xABCD));
    assert_eq!("0123456789abcdef".len() * 2 + 4, hyphenated_of(1).len());
}

#[test]
fn the_text_of_a_uuid_gives_its_value_back() {
    let uuid = Uuid::new_v4();
    assert_eq!(Some(uuid.as_u128()), uuid_of_text(&hyphenated_of(uuid.as_u128())));
    assert_eq!(uuid.hyphenated().to_string(), hyphenated_of(uuid.as_u128()));
    assert_eq!(
        Some(0x185e96da_c00e_454b_b4fe_9d0a14a86335),
        uuid_of_text("185E96DA-C00E-454B-B4FE-9D0A14A86335")
    );
    assert_eq!(
        Some(0x185e96da_c00e_454b_b4fe_9d0a14a86335),
        uuid_of_text("urn:uuid:185e96da-c00e-454b-b4fe-9d0a14a86335")
    );
    assert_eq!(None, uuid_of_text("185e96da"));
    assert_eq!(None, uuid_of_text(""));
}

#[test]
fn the_ids_of_an_event_are_its_uuid_and_then_its_name() {
    let named = MessageBuilder::new("uuid", "text").name(Some("name")).build();
    let ids = named.ids();
    assert!(ids.contains("uuid"));
    assert!(ids.contains("name"));
    assert!(!ids.contains("text"));
    let mut walk = ids.into_iter();
    assert_eq!(Some("uuid"), walk.next());
    assert_eq!(Some("name"), walk.next());
    assert_eq!(None, walk.next());
    assert_eq!(None, walk.next());

    let unnamed = MessageBuilder::new("uuid", "text").build();
    let mut walk = unnamed.ids().into_iter();
    assert_eq!(Some("uuid"), walk.next());
    assert_eq!(None, walk.next());
    assert!(!unnamed.ids().contains("name"));
    let ids = EventIds { uuid: "a", name: Some("a") };
    assert!(ids.contains("a"));
}

#[test]
fn an_event_can_be_changed() {
    let mut message = MessageBuilder::new("uuid", "text").pair("k", "v").build();
    message.set_message("other");
    message.set_name(Some("name"));
    message.set("k", "w");
    message.set("l", "x");
    assert_eq!("other", message.message());
    assert_eq!(Some("name"), message.name());
    assert_eq!(Some("w"), message.get("k"));
    assert_eq!(Some("x"), message.get("l"));
    assert_eq!(3, message.values().len());
    message.set_name(None);
    assert_eq!(None, message.name());
}
