//! The connection session: the bridge between one transport and its room.
//!
//! A session owns nothing but its identity and the time at which its peer was
//! last heard. Every inbound frame and every heartbeat tick is answered with
//! the commands to carry out, in order.

use crate::messages::{ClientConnect, ClientDisconnect, ClientKind, ClientMessage, WebSocketMessage};
use crate::random::{is_random_id, new_v4};
use vstd::prelude::*;

verus! {

/// The time between two liveness probes, in milliseconds.
pub const HEARTBEAT_INTERVAL: u64 = 5_000;

/// How long a connection may stay silent before it is presumed dead, in
/// milliseconds.
pub const CLIENT_TIMEOUT: u64 = 10_000;

/// The role of a session.
#[derive(Debug, PartialEq, Eq)]
pub enum ConnectionKind {
    Admin,
    User(String),
}

/// Why a transport was closed, as its peer gave it.
#[derive(Debug, PartialEq, Eq)]
pub struct CloseReason {
    pub code: u16,
    pub description: Option<String>,
}

/// One inbound frame of the transport.
#[derive(Debug, PartialEq, Eq)]
pub enum Frame {
    Text(String),
    Binary(Vec<u8>),
    Continuation,
    Ping(Vec<u8>),
    Pong(Vec<u8>),
    Close(Option<CloseReason>),
    Nop,
}

/// A failure of the transport in place of a frame.
#[derive(Debug, PartialEq, Eq)]
pub struct ProtocolError;

/// What a session asks to be done.
#[derive(Debug, PartialEq, Eq)]
pub enum Command {
    /// Start the recurring liveness check, one tick every `interval`
    /// milliseconds.
    StartHeartbeat { interval: u64 },
    /// Register with the room.
    Join(ClientConnect),
    /// Unregister from the room.
    Leave(ClientDisconnect),
    /// Hand a text payload to the room for relaying.
    Relay(ClientMessage),
    /// Probe the transport.
    Ping,
    /// Answer a probe with its own payload.
    Pong(Vec<u8>),
    /// Write a binary frame.
    Binary(Vec<u8>),
    /// Write a text frame.
    Text(String),
    /// Close the transport.
    Close(Option<CloseReason>),
    /// End the session.
    Stop,
}

/// One connection session.
#[derive(Debug, PartialEq, Eq)]
pub struct Connection {
    pub id: u128,
    pub kind: ConnectionKind,
    pub last_heartbeat: u64,
}

/// The role under which a session of kind `kind` joins its room.
pub open spec fn client_kind(kind: ConnectionKind) -> ClientKind {
    match kind {
        ConnectionKind::Admin => ClientKind::Admin,
        ConnectionKind::User(name) => ClientKind::User(name),
    }
}

/// Whether an inbound message shows that the peer is alive: a probe, its
/// answer, or an application message.
pub open spec fn is_sign_of_life(msg: Result<Frame, ProtocolError>) -> bool {
    match msg {
        Ok(Frame::Ping(_)) | Ok(Frame::Pong(_)) | Ok(Frame::Text(_)) | Ok(Frame::Binary(_)) => true,
        _ => false,
    }
}

/// The commands with which a session answers an inbound message.
pub open spec fn reaction(session: Connection, msg: Result<Frame, ProtocolError>) -> Seq<Command> {
    match msg {
        Ok(Frame::Ping(payload)) => seq![Command::Pong(payload)],
        Ok(Frame::Pong(_)) => seq![],
        Ok(Frame::Binary(payload)) => seq![Command::Binary(payload)],
        Ok(Frame::Close(reason)) => seq![Command::Close(reason), Command::Stop],
        Ok(Frame::Continuation) => seq![Command::Stop],
        Ok(Frame::Nop) => seq![],
        Ok(Frame::Text(payload)) => match session.kind {
            ConnectionKind::User(_) => seq![
                Command::Relay(ClientMessage { id: session.id, payload }),
            ],
            ConnectionKind::Admin => seq![],
        },
        Err(_) => seq![Command::Stop],
    }
}

/// The time that has passed between `last` and `now`; none where `now` lies
/// before `last`.
pub open spec fn elapsed(last: u64, now: u64) -> int {
    if now >= last {
        now - last
    } else {
        0
    }
}

/// Whether a session last heard at `last` is presumed dead at `now`.
pub open spec fn is_timed_out(last: u64, now: u64) -> bool {
    elapsed(last, now) > CLIENT_TIMEOUT
}

impl Connection {
    /// A session with the given identity, last heard at `now`.
    pub fn with_id(id: u128, kind: ConnectionKind, now: u64) -> (session: Connection)
        ensures
            session == (Connection { id, kind, last_heartbeat: now }),
    {
        Connection { id, kind, last_heartbeat: now }
    }

    /// A user session named `name` with a fresh identifier.
    pub fn new(name: String, now: u64) -> (session: Connection)
        ensures
            is_random_id(session.id),
            session.kind == ConnectionKind::User(name),
            session.last_heartbeat == now,
    {
        Connection::user(name, now)
    }

    /// A user session named `name` with a fresh identifier.
    pub fn user(name: String, now: u64) -> (session: Connection)
        ensures
            is_random_id(session.id),
            session.kind == ConnectionKind::User(name),
            session.last_heartbeat == now,
    {
        Connection::with_id(new_v4(), ConnectionKind::User(name), now)
    }

    /// An admin session with a fresh identifier.
    pub fn admin(now: u64) -> (session: Connection)
        ensures
            is_random_id(session.id),
            session.kind == ConnectionKind::Admin,
            session.last_heartbeat == now,
    {
        Connection::with_id(new_v4(), ConnectionKind::Admin, now)
    }

    /// What to do once the transport is open: start the heartbeat, then join
    /// the room under this session's identifier and role.
    pub fn started(&self) -> (commands: Vec<Command>)
        ensures
            commands@ == seq![
                Command::StartHeartbeat { interval: HEARTBEAT_INTERVAL },
                Command::Join(ClientConnect { id: self.id, kind: client_kind(self.kind) }),
            ],
    {
        let message = match &self.kind {
            ConnectionKind::User(name) => ClientConnect::user(self.id, name.clone()),
            ConnectionKind::Admin => ClientConnect::admin(self.id),
        };
        let mut commands: Vec<Command> = Vec::new();
        commands.push(Command::StartHeartbeat { interval: HEARTBEAT_INTERVAL });
        commands.push(Command::Join(message));
        commands
    }

    /// What to do once the join has been handed to the room: nothing where
    /// it was taken, end the session where the room could not be reached.
    pub fn joined(&self, delivered: bool) -> (commands: Vec<Command>)
        ensures
            commands@ == if delivered {
                Seq::<Command>::empty()
            } else {
                seq![Command::Stop]
            },
    {
        let mut commands: Vec<Command> = Vec::new();
        if !delivered {
            commands.push(Command::Stop);
        }
        commands
    }

    /// One tick of the heartbeat at time `now`. A session that has been
    /// silent for longer than `CLIENT_TIMEOUT` leaves its room and ends;
    /// any other is probed.
    pub fn heartbeat(&self, now: u64) -> (commands: Vec<Command>)
        ensures
            commands@ == if is_timed_out(self.last_heartbeat, now) {
                seq![Command::Leave(ClientDisconnect { id: self.id }), Command::Stop]
            } else {
                seq![Command::Ping]
            },
    {
        let mut commands: Vec<Command> = Vec::new();
        if now >= self.last_heartbeat && now - self.last_heartbeat > CLIENT_TIMEOUT {
            commands.push(Command::Leave(self.send_disconnect_message(self.id)));
            commands.push(Command::Stop);
        } else {
            commands.push(Command::Ping);
        }
        commands
    }

    /// The leave of the session `id`.
    pub fn send_disconnect_message(&self, id: u128) -> (message: ClientDisconnect)
        ensures
            message == (ClientDisconnect { id }),
    {
        ClientDisconnect { id }
    }

    /// Takes one inbound message at time `now`. A sign of life sets the time
    /// at which the peer was last heard. A probe is answered with its
    /// payload; a binary frame is echoed; a close frame closes the transport
    /// and ends the session; a continuation frame or a failure of the
    /// transport ends the session; a text frame is handed to the room by a
    /// user and ignored from an admin.
    pub fn handle(&mut self, msg: Result<Frame, ProtocolError>, now: u64) -> (commands: Vec<
        Command,
    >)
        ensures
            final(self).id == old(self).id,
            final(self).kind == old(self).kind,
            final(self).last_heartbeat == if is_sign_of_life(msg) {
                now
            } else {
                old(self).last_heartbeat
            },
            commands@ == reaction(*old(self), msg),
    {
        let mut commands: Vec<Command> = Vec::new();
        match msg {
            Ok(Frame::Ping(payload)) => {
                self.last_heartbeat = now;
                commands.push(Command::Pong(payload));
            },
            Ok(Frame::Pong(_)) => {
                self.last_heartbeat = now;
            },
            Ok(Frame::Binary(payload)) => {
                self.last_heartbeat = now;
                commands.push(Command::Binary(payload));
            },
            Ok(Frame::Close(reason)) => {
                commands.push(Command::Close(reason));
                commands.push(Command::Stop);
            },
            Ok(Frame::Continuation) => {
                commands.push(Command::Stop);
            },
            Ok(Frame::Nop) => {},
            Ok(Frame::Text(payload)) => {
                self.last_heartbeat = now;
                match &self.kind {
                    ConnectionKind::User(_) => {
                        commands.push(Command::Relay(ClientMessage { id: self.id, payload }));
                    },
                    ConnectionKind::Admin => {},
                }
            },
            Err(_) => {
                commands.push(Command::Stop);
            },
        }
        commands
    }

    /// What to do when the session is ending: leave the room.
    pub fn stopping(&self) -> (message: ClientDisconnect)
        ensures
            message == (ClientDisconnect { id: self.id }),
    {
        self.send_disconnect_message(self.id)
    }

    /// Takes an event that the room pushed: it is written to the transport
    /// as a text frame.
    pub fn forward(&self, msg: WebSocketMessage) -> (command: Command)
        ensures
            command == Command::Text(msg.0),
    {
        Command::Text(msg.0)
    }
}

/// The timeout leaves room for one missed probe: it is at least twice the
/// time between two probes.
pub proof fn lemma_timeout_outlasts_a_missed_probe()
    ensures
        CLIENT_TIMEOUT >= 2 * HEARTBEAT_INTERVAL,
        HEARTBEAT_INTERVAL > 0,
{
}

/// A session that was heard within the timeout is never dropped by a tick:
/// it is probed.
pub proof fn lemma_live_session_is_probed(last: u64, now: u64)
    requires
        now <= last + CLIENT_TIMEOUT,
    ensures
        !is_timed_out(last, now),
{
}

} // verus!
