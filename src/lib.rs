//! Client-side mirror of a chat server's state: guilds, channels, members and
//! messages, kept in step with a stream of remote events, together with a
//! bounded cache of thumbnail bytes.

pub mod client;
pub mod guild;
pub mod invariants;
pub mod media;
pub mod member;
pub mod message;
pub mod outbox;
