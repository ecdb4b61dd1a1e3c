//! Reassembles chat completion messages from a server-sent event stream.
//!
//! The stream arrives as byte chunks. Each chunk is cut into frames on blank
//! lines, each frame is checked for its `data: ` prefix and decoded from JSON,
//! a frame that does not decode is kept until the next chunk completes it, and
//! every decoded delta is folded into the conversation.

pub mod message;
pub mod frame;
pub mod decode;
pub mod conversation;
pub mod stream;
pub mod session;
