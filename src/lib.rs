//! Value types of the JSON-RPC 2.0 protocol (requests, notifications and
//! responses) and the rules that map them to and from JSON values.
//!
//! Every message is written as a JSON object that carries the member
//! `"jsonrpc": "2.0"` first. That member is not stored in the values: the
//! encoder always writes it, and [`has_version_tag`] lets a caller check it
//! on a received value when it wants to.

mod codec;
mod json;
mod notification;
mod request;
mod response;

pub use codec::{DecodeError, JsonCodec};
pub use notification::Notification;
pub use request::Request;
pub use response::{Response, ResponseContent, ResponseError};
pub use json::{has_version_tag, Json};
