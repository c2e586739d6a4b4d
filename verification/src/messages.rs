//! The messages exchanged between a connection session and its room.

use vstd::prelude::*;

verus! {

/// The role under which a connection joins a room.
#[derive(Debug, PartialEq, Eq)]
pub enum ClientKind {
    Admin,
    User(String),
}

/// A text payload pushed by the room to one connection's transport.
#[derive(Debug, PartialEq, Eq)]
pub struct WebSocketMessage(pub String);

/// Registers a connection with its room.
#[derive(Debug, PartialEq, Eq)]
pub struct ClientConnect {
    pub kind: ClientKind,
    pub id: u128,
}

impl ClientConnect {
    /// The join message of a user with display name `name`.
    pub fn user(id: u128, name: String) -> (msg: ClientConnect)
        ensures
            msg.id == id,
            msg.kind == ClientKind::User(name),
    {
        ClientConnect { id, kind: ClientKind::User(name) }
    }

    /// The join message of an admin.
    pub fn admin(id: u128) -> (msg: ClientConnect)
        ensures
            msg.id == id,
            msg.kind == ClientKind::Admin,
    {
        ClientConnect { id, kind: ClientKind::Admin }
    }
}

/// Removes a connection from its room.
#[derive(Debug, PartialEq, Eq)]
pub struct ClientDisconnect {
    pub id: u128,
}

/// A raw text payload received from the connection `id`.
#[derive(Debug, PartialEq, Eq)]
pub struct ClientMessage {
    pub id: u128,
    pub payload: String,
}

} // verus!
