//! The abstract room: its state as plain sequences, and each operation of the
//! room authority as a function from the state before to the state after and
//! to the ordered list of events it emits.

use crate::event::{DeliveryView, EventView};
use crate::matchmaking::{has_pairing, involves, joins, keys, next_match, Pairing};
use vstd::prelude::*;

verus! {

/// A connected user: its identifier and its display name.
pub type UserEntry = (u128, Seq<char>);

/// A request to end a pairing once its time is up.
#[derive(Clone, Copy, Debug, PartialEq, Eq)]
pub struct MatchTimer {
    pub pairing: Pairing,
    pub seconds: u64,
}

/// The session state of a room.
///
/// `admins` and `users` list the connected sessions in the order in which
/// they joined; that order is the enumeration order of every broadcast and of
/// the matchmaking engine. `active` holds the live pairings and `history`
/// every pairing ever created, both in order of creation.
pub struct RoomView {
    pub match_duration: u64,
    pub admins: Seq<u128>,
    pub users: Seq<UserEntry>,
    pub active: Seq<Pairing>,
    pub history: Seq<Pairing>,
}

/// `event`, addressed to each of `recipients` in turn.
pub open spec fn to_each(recipients: Seq<u128>, event: EventView) -> Seq<DeliveryView> {
    recipients.map_values(|to: u128| DeliveryView { to, event })
}

/// Announces one connected user to the admin `admin`.
pub open spec fn present_to(admin: u128) -> spec_fn(UserEntry) -> DeliveryView {
    |user: UserEntry|
        DeliveryView { to: admin, event: EventView::UserPresent { id: user.0, name: user.1 } }
}

/// Gives the entry of `id` the display name `name` and leaves other entries
/// as they are.
pub open spec fn renamed(id: u128, name: Seq<char>) -> spec_fn(UserEntry) -> UserEntry {
    |user: UserEntry|
        if user.0 == id {
            (id, name)
        } else {
            user
        }
}

/// Holds of every user entry but that of `id`.
pub open spec fn other_than(id: u128) -> spec_fn(UserEntry) -> bool {
    |user: UserEntry| user.0 != id
}

/// Holds of every identifier but `id`.
pub open spec fn differs_from(id: u128) -> spec_fn(u128) -> bool {
    |other: u128| other != id
}

/// Holds of the pairings that `user` is a member of.
pub open spec fn involving(user: u128) -> spec_fn(Pairing) -> bool {
    |pairing: Pairing| involves(pairing, user)
}

/// Holds of the pairings that `user` is no member of.
pub open spec fn not_involving(user: u128) -> spec_fn(Pairing) -> bool {
    |pairing: Pairing| !involves(pairing, user)
}

/// Holds of every pairing but the one of `a` with `b`.
pub open spec fn not_joining(a: u128, b: u128) -> spec_fn(Pairing) -> bool {
    |pairing: Pairing| !joins(pairing, a, b)
}

/// The member of `pairing` that is not `user`.
pub open spec fn other_member(pairing: Pairing, user: u128) -> u128 {
    if pairing.0 == user {
        pairing.1
    } else {
        pairing.0
    }
}

/// Tells the partner of `user` in a pairing that `user` has left.
pub open spec fn farewell_from(user: u128) -> spec_fn(Pairing) -> DeliveryView {
    |pairing: Pairing|
        DeliveryView { to: other_member(pairing, user), event: EventView::UserLeft { id: user } }
}

/// Holds of the deliveries addressed to `recipient`.
pub open spec fn addressed_to(recipient: u128) -> spec_fn(DeliveryView) -> bool {
    |delivery: DeliveryView| delivery.to == recipient
}

/// The display name under which `id` is listed in `users`: that of its first
/// entry, or the empty name where it has none.
pub open spec fn name_of(users: Seq<UserEntry>, id: u128) -> Seq<char>
    decreases users.len(),
{
    if users.len() == 0 {
        Seq::empty()
    } else if users[0].0 == id {
        users[0].1
    } else {
        name_of(users.drop_first(), id)
    }
}

impl RoomView {
    /// A room without sessions or pairings.
    pub open spec fn empty(match_duration: u64) -> RoomView {
        RoomView {
            match_duration,
            admins: Seq::empty(),
            users: Seq::empty(),
            active: Seq::empty(),
            history: Seq::empty(),
        }
    }

    /// Whether `id` is a connected user.
    pub open spec fn is_user(self, id: u128) -> bool {
        keys(self.users).contains(id)
    }

    /// Whether `id` is a connected admin.
    pub open spec fn is_admin(self, id: u128) -> bool {
        self.admins.contains(id)
    }

    /// Whether an event addressed to `id` can be delivered.
    pub open spec fn is_connected(self, id: u128) -> bool {
        self.is_user(id) || self.is_admin(id)
    }

    /// The snapshot of the live pairings that admins are sent.
    pub open spec fn snapshot(self) -> EventView {
        EventView::ActiveMatchesChanged { matches: self.active }
    }

    // ----- an admin joins -----

    /// The state after the admin `id` has joined.
    pub open spec fn join_admin(self, id: u128) -> RoomView {
        RoomView {
            admins: if self.admins.contains(id) {
                self.admins
            } else {
                self.admins.push(id)
            },
            ..self
        }
    }

    /// What is sent when the admin `id` joins: every connected user is
    /// announced to it, then every admin, the new one included, is sent the
    /// live pairings.
    pub open spec fn join_admin_deliveries(self, id: u128) -> Seq<DeliveryView> {
        self.users.map_values(present_to(id)) + to_each(
            self.join_admin(id).admins,
            self.snapshot(),
        )
    }

    // ----- a user joins -----

    /// The state once the user `id` has taken its seat under `name`: a new
    /// identifier is listed last, a known one keeps its place and takes the
    /// new name.
    pub open spec fn seated(self, id: u128, name: Seq<char>) -> RoomView {
        RoomView {
            users: if self.is_user(id) {
                self.users.map_values(renamed(id, name))
            } else {
                self.users.push((id, name))
            },
            ..self
        }
    }

    /// The pairing that the matchmaking engine proposes for the arrival `id`
    /// among the connected users.
    pub open spec fn proposal(self, id: u128) -> Option<Pairing> {
        next_match(id, keys(self.users), self.active, self.history)
    }

    /// The state once the engine has been run for the arrival `id`: a
    /// proposed pairing enters the live pairings and the history together.
    pub open spec fn matched(self, id: u128) -> RoomView {
        match self.proposal(id) {
            Some(pairing) => RoomView {
                active: self.active.push(pairing),
                history: self.history.push(pairing),
                ..self
            },
            None => self,
        }
    }

    /// The state after the user `id` has joined under `name`: it is seated,
    /// then matched.
    pub open spec fn join_user(self, id: u128, name: Seq<char>) -> RoomView {
        self.seated(id, name).matched(id)
    }

    /// What is sent when the user `id` joins under `name`: its own identifier
    /// to itself and its arrival to every admin; then, where a pairing was
    /// made, each of the two is told of the other and every admin is sent the
    /// live pairings.
    pub open spec fn join_user_deliveries(self, id: u128, name: Seq<char>) -> Seq<DeliveryView> {
        let seated = self.seated(id, name);
        let greeting = seq![DeliveryView { to: id, event: EventView::SelfJoined { id } }]
            + to_each(self.admins, EventView::UserJoined { id, name });
        match seated.proposal(id) {
            Some(pairing) => greeting + seq![
                DeliveryView {
                    to: id,
                    event: EventView::UserMatched {
                        id: pairing.1,
                        name: name_of(seated.users, pairing.1),
                        duration: self.match_duration,
                    },
                },
                DeliveryView {
                    to: pairing.1,
                    event: EventView::UserMatched { id, name, duration: self.match_duration },
                },
            ] + to_each(self.admins, seated.matched(id).snapshot()),
            None => greeting,
        }
    }

    /// The timer to start when the user `id` joins under `name`: one for the
    /// pairing that was made, if any.
    pub open spec fn join_user_timer(self, id: u128, name: Seq<char>) -> Option<MatchTimer> {
        match self.seated(id, name).proposal(id) {
            Some(pairing) => Some(MatchTimer { pairing, seconds: self.match_duration }),
            None => None,
        }
    }

    // ----- a session leaves -----

    /// The state after `id` has left. A user is removed together with every
    /// live pairing it is a member of; an admin is removed; an unknown
    /// identifier changes nothing. The history is never touched.
    pub open spec fn leave(self, id: u128) -> RoomView {
        if self.is_user(id) {
            RoomView {
                users: self.users.filter(other_than(id)),
                active: self.active.filter(not_involving(id)),
                ..self
            }
        } else if self.is_admin(id) {
            RoomView { admins: self.admins.filter(differs_from(id)), ..self }
        } else {
            self
        }
    }

    /// What is sent when `id` leaves. For a user: its partner in each live
    /// pairing is told, then every admin is sent the remaining live pairings,
    /// then every admin is told. For anyone else: nothing.
    pub open spec fn leave_deliveries(self, id: u128) -> Seq<DeliveryView> {
        if self.is_user(id) {
            self.active.filter(involving(id)).map_values(farewell_from(id)) + to_each(
                self.admins,
                self.leave(id).snapshot(),
            ) + to_each(self.admins, EventView::UserLeft { id })
        } else {
            Seq::empty()
        }
    }

    // ----- a signaling envelope is relayed -----

    /// What is sent when `from` hands in `envelope`, the parsed payload or
    /// `None` where it could not be parsed. A signaling event addressed to a
    /// connected session is passed on with `from` in place of the address;
    /// anything else is dropped.
    pub open spec fn relay(self, from: u128, envelope: Option<EventView>) -> Option<DeliveryView> {
        match envelope {
            Some(EventView::ICECandidate { id, description }) => if self.is_connected(id) {
                Some(
                    DeliveryView {
                        to: id,
                        event: EventView::ICECandidate { id: from, description },
                    },
                )
            } else {
                None
            },
            Some(EventView::RTCConnectionOffer { id, description }) => if self.is_connected(id) {
                Some(
                    DeliveryView {
                        to: id,
                        event: EventView::RTCConnectionOffer { id: from, description },
                    },
                )
            } else {
                None
            },
            Some(EventView::RTCConnectionAnswer { id, description }) => if self.is_connected(id) {
                Some(
                    DeliveryView {
                        to: id,
                        event: EventView::RTCConnectionAnswer { id: from, description },
                    },
                )
            } else {
                None
            },
            _ => None,
        }
    }

    // ----- a match timer fires -----

    /// The state after the timer of `pairing` has fired: the pairing is taken
    /// out of the live pairings if it is still among them.
    pub open spec fn expire(self, pairing: Pairing) -> RoomView {
        if has_pairing(self.active, pairing.0, pairing.1) {
            RoomView { active: self.active.filter(not_joining(pairing.0, pairing.1)), ..self }
        } else {
            self
        }
    }

    /// What is sent when the timer of `pairing` fires. While the pairing is
    /// live, each member is told that the match with the other has ended and
    /// every admin is sent the remaining live pairings. Otherwise nothing.
    pub open spec fn expire_deliveries(self, pairing: Pairing) -> Seq<DeliveryView> {
        if has_pairing(self.active, pairing.0, pairing.1) {
            seq![
                DeliveryView { to: pairing.0, event: EventView::MatchEnded { id: pairing.1 } },
                DeliveryView { to: pairing.1, event: EventView::MatchEnded { id: pairing.0 } },
            ] + to_each(self.admins, self.expire(pairing).snapshot())
        } else {
            Seq::empty()
        }
    }
}

/// One operation of the room authority that may change the state.
pub enum Operation {
    JoinAdmin { id: u128 },
    JoinUser { id: u128, name: Seq<char> },
    Leave { id: u128 },
    Expire { pairing: Pairing },
}

impl RoomView {
    /// The state after one operation.
    pub open spec fn step(self, operation: Operation) -> RoomView {
        match operation {
            Operation::JoinAdmin { id } => self.join_admin(id),
            Operation::JoinUser { id, name } => self.join_user(id, name),
            Operation::Leave { id } => self.leave(id),
            Operation::Expire { pairing } => self.expire(pairing),
        }
    }

    /// What one operation sends.
    pub open spec fn emitted(self, operation: Operation) -> Seq<DeliveryView> {
        match operation {
            Operation::JoinAdmin { id } => self.join_admin_deliveries(id),
            Operation::JoinUser { id, name } => self.join_user_deliveries(id, name),
            Operation::Leave { id } => self.leave_deliveries(id),
            Operation::Expire { pairing } => self.expire_deliveries(pairing),
        }
    }

    /// The state after `operations`, taken in order.
    pub open spec fn after(self, operations: Seq<Operation>) -> RoomView
        decreases operations.len(),
    {
        if operations.len() == 0 {
            self
        } else {
            self.after(operations.drop_last()).step(operations.last())
        }
    }
}

} // verus!
