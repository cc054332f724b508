use chat_bridge::wire::{encode_wire_message, MessageType, ReactionInfo, WireMessage};

fn plain_message(author: &str, content: &str, timestamp: i64, message_id: &str) -> WireMessage {
    WireMessage {
        message_type: MessageType::Message,
        author: String::from(author),
        content: String::from(content),
        timestamp,
        message_id: String::from(message_id),
        reactions: None,
    }
}

#[test]
fn encode_message_exact_text() {
    let m = plain_message("alice", "hello world", 1700000000, "42");
    let s = encode_wire_message(&m);
    assert_eq!(
        s,
        "{\"message_type\":\"message\",\"author\":\"alice\",\"content\":\"hello world\",\
         \"timestamp\":1700000000,\"message_id\":\"42\",\"reactions\":null}"
    );
}

#[test]
fn encode_negative_timestamp() {
    let m = plain_message("a", "b", -5, "1");
    let s = encode_wire_message(&m);
    assert_eq!(
        s,
        "{\"message_type\":\"message\",\"author\":\"a\",\"content\":\"b\",\
         \"timestamp\":-5,\"message_id\":\"1\",\"reactions\":null}"
    );
}

#[test]
fn encode_escapes_content() {
    let m = plain_message("quo\"te", "back\\slash\nline\ttab", 0, "9");
    let s = encode_wire_message(&m);
    assert_eq!(
        s,
        "{\"message_type\":\"message\",\"author\":\"quo\\\"te\",\
         \"content\":\"back\\\\slash\\nline\\ttab\",\
         \"timestamp\":0,\"message_id\":\"9\",\"reactions\":null}"
    );
}

#[test]
fn encode_escapes_control_characters() {
    let m = plain_message("", "a\u{1}b\u{1f}c\u{8}d\u{c}e\r f", 1, "2");
    let s = encode_wire_message(&m);
    assert_eq!(
        s,
        "{\"message_type\":\"message\",\"author\":\"\",\
         \"content\":\"a\\u0001b\\u001fc\\bd\\fe\\r f\",\
         \"timestamp\":1,\"message_id\":\"2\",\"reactions\":null}"
    );
}

#[test]
fn encode_reaction_exact_text() {
    let m = WireMessage {
        message_type: MessageType::Reaction,
        author: String::new(),
        content: String::new(),
        timestamp: 1700000001,
        message_id: String::from("77"),
        reactions: Some(vec![
            ReactionInfo {
                emoji: String::from("\u{1f600}"),
                count: 3,
                message_id: String::from("77"),
            },
            ReactionInfo {
                emoji: String::from("\u{1f44d}"),
                count: 1,
                message_id: String::from("77"),
            },
        ]),
    };
    let s = encode_wire_message(&m);
    assert_eq!(
        s,
        "{\"message_type\":\"reaction\",\"author\":\"\",\"content\":\"\",\
         \"timestamp\":1700000001,\"message_id\":\"77\",\
         \"reactions\":[{\"emoji\":\"\u{1f600}\",\"count\":3,\"message_id\":\"77\"},\
         {\"emoji\":\"\u{1f44d}\",\"count\":1,\"message_id\":\"77\"}]}"
    );
}

#[test]
fn encode_empty_reaction_list_is_empty_array() {
    let m = WireMessage {
        message_type: MessageType::Reaction,
        author: String::new(),
        content: String::new(),
        timestamp: 0,
        message_id: String::from("5"),
        reactions: Some(vec![]),
    };
    let s = encode_wire_message(&m);
    assert_eq!(
        s,
        "{\"message_type\":\"reaction\",\"author\":\"\",\"content\":\"\",\
         \"timestamp\":0,\"message_id\":\"5\",\"reactions\":[]}"
    );
}

#[test]
fn round_trip_message_through_json_parser() {
    let m = plain_message("bo\"b", "line one\nline two \u{2603}", -1234567, "9007199254740993");
    let s = encode_wire_message(&m);
    let v: serde_json::Value = serde_json::from_str(&s).expect("encoder must emit valid JSON");
    assert_eq!(v.get("message_type").unwrap().as_str().unwrap(), "message");
    assert_eq!(v.get("author").unwrap().as_str().unwrap(), "bo\"b");
    assert_eq!(
        v.get("content").unwrap().as_str().unwrap(),
        "line one\nline two \u{2603}"
    );
    assert_eq!(v.get("timestamp").unwrap().as_i64().unwrap(), -1234567);
    assert_eq!(
        v.get("message_id").unwrap().as_str().unwrap(),
        "9007199254740993"
    );
    assert!(v.get("reactions").unwrap().is_null());
}

#[test]
fn round_trip_reaction_through_json_parser() {
    let m = WireMessage {
        message_type: MessageType::Reaction,
        author: String::new(),
        content: String::new(),
        timestamp: 1700000002,
        message_id: String::from("314"),
        reactions: Some(vec![
            ReactionInfo {
                emoji: String::from("\u{1f600}"),
                count: 3,
                message_id: String::from("314"),
            },
            ReactionInfo {
                emoji: String::from("\u{1f44d}"),
                count: 1,
                message_id: String::from("314"),
            },
        ]),
    };
    let s = encode_wire_message(&m);
    let v: serde_json::Value = serde_json::from_str(&s).expect("encoder must emit valid JSON");
    assert_eq!(v.get("message_type").unwrap().as_str().unwrap(), "reaction");
    assert_eq!(v.get("author").unwrap().as_str().unwrap(), "");
    assert_eq!(v.get("content").unwrap().as_str().unwrap(), "");
    assert_eq!(v.get("timestamp").unwrap().as_i64().unwrap(), 1700000002);
    assert_eq!(v.get("message_id").unwrap().as_str().unwrap(), "314");
    let rs = v.get("reactions").unwrap().as_array().unwrap();
    assert_eq!(rs.len(), 2);
    assert_eq!(rs[0].get("emoji").unwrap().as_str().unwrap(), "\u{1f600}");
    assert_eq!(rs[0].get("count").unwrap().as_i64().unwrap(), 3);
    assert_eq!(rs[0].get("message_id").unwrap().as_str().unwrap(), "314");
    assert_eq!(rs[1].get("emoji").unwrap().as_str().unwrap(), "\u{1f44d}");
    assert_eq!(rs[1].get("count").unwrap().as_i64().unwrap(), 1);
    assert_eq!(rs[1].get("message_id").unwrap().as_str().unwrap(), "314");
}
