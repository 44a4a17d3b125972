//! A binary codec for the MQTT 5.0 wire protocol.
//!
//! The crate translates between in-memory packet values and the exact byte
//! sequences the protocol standard defines: primitive value encoders and
//! decoders, the property framework with default elision and uniqueness
//! enforcement, reason codes with their per-packet legality table, and the
//! packet framings that compose these into complete packet bodies.
//!
//! Encoding appends to a byte buffer; decoding consumes a bounded [`codec::Reader`].
//! Both are pure over bytes, so a caller may drive them from a blocking or a
//! suspending byte stream alike: read or buffer the packet's bytes, then
//! decode, or encode, then write the buffer out.

pub mod auth;
pub mod codec;
pub mod error;
pub mod property;
pub mod puback;
pub mod publish;
pub mod quality_of_service;
pub mod suback;
pub mod reason_code;

pub use auth::{Auth, Authentication};
pub use error::Error;
pub use property::{PropertiesDecoder, Property};
pub use puback::PubAck;
pub use publish::Publish;
pub use suback::SubAck;
pub use quality_of_service::QoS;
pub use reason_code::{ControlPacketType, ReasonCode};
