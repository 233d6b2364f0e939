//! Codec for a binary check-in protocol carried over HTTP.
//!
//! Inbound bodies are decoded into [`packets::Packet`] values through the
//! field reader [`encoding::BodyReader`]; outbound command batches are
//! serialised from, and parsed back into, [`encoding::Response`] values.
//! Every function is proved against a model of the wire format that is
//! written over sequences of bytes.

pub mod endian;
pub mod error;
pub mod encoding;
pub mod packets;
pub mod text;
