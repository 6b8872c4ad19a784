//! A buildable, structured error object for service responses and logs.
//!
//! The crate exposes an immutable error value ([`object::Terror`]) carrying an
//! HTTP-style status code, a human message, optional metadata and a bag of
//! named details; a consuming, single-use [`builder::Builder`] that assembles
//! it; a verified document codec ([`codec`]) governing its wire shape; and a
//! one-line log formatter.

pub mod text;
pub mod document;
pub mod timestamp;
pub mod ident;
pub mod object;
pub mod builder;
pub mod codec;

pub use builder::Builder;
pub use builder::Capabilities;
pub use codec::DecodeError;
pub use document::DocValue;
pub use object::DetailValue;
pub use object::Terror;
pub use timestamp::Timestamp;
