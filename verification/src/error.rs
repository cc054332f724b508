//! The library's error type.
//!
//! Each variant carries the offending text or a short description as plain
//! text; the process around the library decides how to surface it.

use vstd::prelude::*;
use vstd::string::StringExecFns;

verus! {

/// Everything that can go wrong around the relay.
#[derive(Debug)]
pub enum BotError {
    /// A required environment variable was missing or unreadable.
    EnvError(String),
    /// The configured channel identifier did not parse as a number.
    ParseError(String),
    /// The upstream chat client failed.
    DiscordError(String),
    /// The streaming server failed.
    WebSocketError(String),
    /// A file could not be served or opened.
    FileError(String),
    /// A wire message could not be serialized.
    SerdeError(String),
}

impl BotError {
    /// A human-readable description, in place of a `Display` impl.
    pub fn message(&self) -> (r: String)
        ensures
            match self {
                BotError::EnvError(s) => r@ == "Environment variable error: "@ + s@,
                BotError::ParseError(s) => r@ == "Channel ID parse error: "@ + s@,
                BotError::DiscordError(s) => r@ == "Discord client error: "@ + s@,
                BotError::WebSocketError(s) => r@ == "WebSocket error: "@ + s@,
                BotError::FileError(s) => r@ == "File error: "@ + s@,
                BotError::SerdeError(s) => r@ == "Serialization error: "@ + s@,
            },
    {
        match self {
            BotError::EnvError(s) => {
                let mut m = String::from_str("Environment variable error: ");
                m.append(s.as_str());
                m
            },
            BotError::ParseError(s) => {
                let mut m = String::from_str("Channel ID parse error: ");
                m.append(s.as_str());
                m
            },
            BotError::DiscordError(s) => {
                let mut m = String::from_str("Discord client error: ");
                m.append(s.as_str());
                m
            },
            BotError::WebSocketError(s) => {
                let mut m = String::from_str("WebSocket error: ");
                m.append(s.as_str());
                m
            },
            BotError::FileError(s) => {
                let mut m = String::from_str("File error: ");
                m.append(s.as_str());
                m
            },
            BotError::SerdeError(s) => {
                let mut m = String::from_str("Serialization error: ");
                m.append(s.as_str());
                m
            },
        }
    }
}

} // verus!
