use chat_bridge::config::parse_channel_id;
use chat_bridge::decimal::u64_to_string;
use chat_bridge::error::BotError;

#[test]
fn parses_plain_digits() {
    assert_eq!(parse_channel_id("123").unwrap(), 123);
    assert_eq!(parse_channel_id("0").unwrap(), 0);
    assert_eq!(parse_channel_id("007").unwrap(), 7);
}

#[test]
fn parses_with_leading_plus() {
    assert_eq!(parse_channel_id("+42").unwrap(), 42);
}

#[test]
fn parses_largest_value() {
    assert_eq!(
        parse_channel_id("18446744073709551615").unwrap(),
        u64::MAX
    );
}

#[test]
fn rejects_overflow() {
    assert!(parse_channel_id("18446744073709551616").is_err());
}

#[test]
fn rejects_empty_and_sign_only() {
    assert!(parse_channel_id("").is_err());
    assert!(parse_channel_id("+").is_err());
}

#[test]
fn rejects_non_digits() {
    assert!(parse_channel_id("12a3").is_err());
    assert!(parse_channel_id("-5").is_err());
    assert!(parse_channel_id(" 12").is_err());
}

#[test]
fn parse_error_carries_the_text() {
    match parse_channel_id("oops") {
        Err(BotError::ParseError(t)) => assert_eq!(t, "oops"),
        _ => panic!("expected a parse error"),
    }
}

#[test]
fn error_messages_name_their_cause() {
    let e = BotError::ParseError(String::from("xyz"));
    assert_eq!(e.message(), "Channel ID parse error: xyz");
    let e = BotError::EnvError(String::from("BRIDGE_CHANNEL_ID"));
    assert_eq!(e.message(), "Environment variable error: BRIDGE_CHANNEL_ID");
    let e = BotError::DiscordError(String::from("gateway"));
    assert_eq!(e.message(), "Discord client error: gateway");
    let e = BotError::WebSocketError(String::from("bind"));
    assert_eq!(e.message(), "WebSocket error: bind");
    let e = BotError::FileError(String::from("index.html"));
    assert_eq!(e.message(), "File error: index.html");
    let e = BotError::SerdeError(String::from("bad value"));
    assert_eq!(e.message(), "Serialization error: bad value");
}

#[test]
fn formats_decimal_text() {
    assert_eq!(u64_to_string(0), "0");
    assert_eq!(u64_to_string(10), "10");
    assert_eq!(u64_to_string(u64::MAX), "18446744073709551615");
}

#[test]
fn format_then_parse_is_identity() {
    for n in [0u64, 1, 9, 10, 99, 12345678901234567, u64::MAX] {
        let text = u64_to_string(n);
        assert_eq!(parse_channel_id(&text).unwrap(), n);
    }
}
