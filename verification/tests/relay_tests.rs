use chat_bridge::relay::{
    build_wire_message, event_handler, relay_event, ChatEvent, Data, EventKind, ReactionTally,
};
use chat_bridge::slot::ConnectionSlot;
use chat_bridge::wire::MessageType;

const BRIDGE: u64 = 1000;

fn message_event(channel_id: u64) -> ChatEvent {
    ChatEvent {
        kind: EventKind::MessageCreated,
        channel_id,
        author: String::from("carol"),
        content: String::from("hi there"),
        timestamp: 1700000000,
        message_id: 555,
        reactions: vec![],
    }
}

fn reaction_event(channel_id: u64) -> ChatEvent {
    ChatEvent {
        kind: EventKind::ReactionAdded,
        channel_id,
        author: String::new(),
        content: String::new(),
        timestamp: 1700000001,
        message_id: 777,
        reactions: vec![
            ReactionTally {
                emoji: String::from("\u{1f600}"),
                count: 3,
            },
            ReactionTally {
                emoji: String::from("\u{1f44d}"),
                count: 1,
            },
        ],
    }
}

#[test]
fn message_event_maps_directly() {
    let m = build_wire_message(&message_event(BRIDGE), BRIDGE).unwrap();
    assert_eq!(m.message_type, MessageType::Message);
    assert_eq!(m.author, "carol");
    assert_eq!(m.content, "hi there");
    assert_eq!(m.timestamp, 1700000000);
    assert_eq!(m.message_id, "555");
    assert!(m.reactions.is_none());
}

#[test]
fn reaction_event_maps_to_snapshot() {
    let m = build_wire_message(&reaction_event(BRIDGE), BRIDGE).unwrap();
    assert_eq!(m.message_type, MessageType::Reaction);
    assert_eq!(m.author, "");
    assert_eq!(m.content, "");
    assert_eq!(m.timestamp, 1700000001);
    assert_eq!(m.message_id, "777");
    let rs = m.reactions.unwrap();
    assert_eq!(rs.len(), 2);
    assert_eq!(rs[0].emoji, "\u{1f600}");
    assert_eq!(rs[0].count, 3);
    assert_eq!(rs[0].message_id, "777");
    assert_eq!(rs[1].emoji, "\u{1f44d}");
    assert_eq!(rs[1].count, 1);
    assert_eq!(rs[1].message_id, "777");
}

#[test]
fn reaction_removed_maps_like_added() {
    let mut e = reaction_event(BRIDGE);
    e.kind = EventKind::ReactionRemoved;
    let m = build_wire_message(&e, BRIDGE).unwrap();
    assert_eq!(m.message_type, MessageType::Reaction);
    assert_eq!(m.reactions.unwrap().len(), 2);
}

#[test]
fn other_channel_builds_nothing() {
    assert!(build_wire_message(&message_event(BRIDGE + 1), BRIDGE).is_none());
    assert!(build_wire_message(&reaction_event(BRIDGE - 1), BRIDGE).is_none());
}

#[test]
fn other_channel_never_reaches_the_slot() {
    let mut slot = ConnectionSlot::new();
    slot.install(1);
    let r = relay_event(&slot, &message_event(BRIDGE + 1), BRIDGE);
    assert!(r.is_none());
}

#[test]
fn matching_event_reaches_installed_sink() {
    let mut slot = ConnectionSlot::new();
    slot.install(42);
    let (sink, payload) = relay_event(&slot, &message_event(BRIDGE), BRIDGE).unwrap();
    assert_eq!(sink, 42);
    assert_eq!(
        payload,
        "{\"message_type\":\"message\",\"author\":\"carol\",\"content\":\"hi there\",\
         \"timestamp\":1700000000,\"message_id\":\"555\",\"reactions\":null}"
    );
}

#[test]
fn matching_event_with_empty_slot_is_dropped() {
    let slot = ConnectionSlot::new();
    assert!(relay_event(&slot, &message_event(BRIDGE), BRIDGE).is_none());
}

#[test]
fn later_connection_supersedes_earlier_one() {
    let mut slot = ConnectionSlot::new();
    slot.install(1);
    slot.install(2);
    let (sink, _) = relay_event(&slot, &message_event(BRIDGE), BRIDGE).unwrap();
    assert_eq!(sink, 2);
    let (sink2, _) = relay_event(&slot, &reaction_event(BRIDGE), BRIDGE).unwrap();
    assert_eq!(sink2, 2);
}

#[test]
fn event_handler_uses_shared_state() {
    let mut slot = ConnectionSlot::new();
    slot.install(9);
    let data = Data {
        bridge_channel_id: BRIDGE,
        ws_sender: slot,
    };
    let (sink, payload) = event_handler(&data, &reaction_event(BRIDGE)).unwrap();
    assert_eq!(sink, 9);
    assert_eq!(
        payload,
        "{\"message_type\":\"reaction\",\"author\":\"\",\"content\":\"\",\
         \"timestamp\":1700000001,\"message_id\":\"777\",\
         \"reactions\":[{\"emoji\":\"\u{1f600}\",\"count\":3,\"message_id\":\"777\"},\
         {\"emoji\":\"\u{1f44d}\",\"count\":1,\"message_id\":\"777\"}]}"
    );
    assert!(event_handler(&data, &message_event(BRIDGE + 5)).is_none());
}
