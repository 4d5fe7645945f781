//! Verified core of a client for a line-oriented, stateful TCP control
//! protocol driving a media-playback daemon.
//!
//! The library covers the protocol logic: command framing and escaping,
//! decoding of the three response shapes (`OK`, `ACK <message>`, and a
//! `binary: <n>` payload announcement), the reconnect-and-retry-once policy,
//! chunked binary transfers, change-notification decoding, and the typed
//! command operations built on top. Sockets, the HTTP layer, and the event
//! loop live outside the library and hand it plain values.

pub mod codec;
pub mod commands;
pub mod conn;
pub mod decode;
pub mod error;
pub mod listing;
pub mod notify;
pub mod result;
pub mod transfer;
pub mod wire;
