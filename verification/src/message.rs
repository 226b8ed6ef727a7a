//! The messages that users exchange.

use vstd::prelude::*;

verus! {

/// Whom a message is for: one user, or a group.
#[derive(Debug, Clone, Copy, PartialEq, Eq, Structural)]
pub enum Type {
    User,
    Group,
}

/// A message from one user to a user or a group. In JSON the field `ty` is
/// written `type`.
#[derive(Debug)]
pub struct Message {
    pub id: String,
    pub ty: Type,
    pub form: String,
    pub to: String,
    pub body: String,
}

/// What a client sends over its WebSocket.
#[derive(Debug)]
pub enum WSRecv {
    Message(Message),
}

} // verus!
