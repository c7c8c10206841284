//! The binary form of the protocol's messages.
//!
//! A frame is the length of its payload in four bytes, least significant
//! first, and the payload. A payload is a tag and the fields that the tag
//! calls for.

pub mod command;
pub mod format;
pub mod frame;
pub mod hierarchy;
pub mod layout;
pub mod message;
pub mod update;
