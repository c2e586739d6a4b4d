//! The room authority: the single owner of one room's sessions and pairings.
//!
//! Each operation changes the state and returns, in order, the events to
//! deliver. Nothing is sent from here; the caller delivers what is returned.

use crate::event::{copy_pairings, Delivery, DeliveryView, Event};
use crate::laws::{
    exclusive, lemma_empty_room_is_valid, lemma_expire_keeps_valid, lemma_join_admin_keeps_valid,
    lemma_join_user_keeps_valid, lemma_leave_keeps_valid,
};
use crate::matchmaking::{calculate_next_match, holds_pairing, keys, Pairing};
use crate::messages::{ClientConnect, ClientDisconnect, ClientKind};
use crate::model::{
    differs_from, farewell_from, involving, name_of, not_involving, not_joining, other_than,
    present_to, renamed, to_each, MatchTimer, RoomView, UserEntry,
};
use crate::random::{is_random_id, is_token, new_v4, random_token};
use vstd::prelude::*;

verus! {

/// How long a match lasts, in seconds.
pub const MATCH_DURATION: u64 = 120;

/// What the room keeps of a connected user.
pub struct UserConnectionInfo {
    pub name: String,
}

/// The sessions and pairings of a room. Only the operations of [`Room`]
/// change them.
pub struct RoomState {
    match_duration: u64,
    admins: Vec<u128>,
    users: Vec<(u128, UserConnectionInfo)>,
    active_matches: Vec<Pairing>,
    previous_matches: Vec<Pairing>,
}

/// A room: its identity, and the state of its sessions and pairings.
pub struct Room {
    pub id: u128,
    pub name: String,
    pub admin_token: String,
    pub state: RoomState,
}

/// A stored user entry as identifier and display name.
pub open spec fn entry_view() -> spec_fn((u128, UserConnectionInfo)) -> UserEntry {
    |entry: (u128, UserConnectionInfo)| (entry.0, entry.1.name@)
}

/// The stored user entries as identifiers and display names.
pub open spec fn entries_view(entries: Seq<(u128, UserConnectionInfo)>) -> Seq<UserEntry> {
    entries.map_values(entry_view())
}

impl View for RoomState {
    type V = RoomView;

    closed spec fn view(&self) -> RoomView {
        RoomView {
            match_duration: self.match_duration,
            admins: self.admins@,
            users: entries_view(self.users@),
            active: self.active_matches@,
            history: self.previous_matches@,
        }
    }
}

impl View for Room {
    type V = RoomView;

    open spec fn view(&self) -> RoomView {
        self.state@
    }
}

/// What a join asks of the caller: the events to deliver, in order, and the
/// timer to start if a pairing was made.
pub struct ConnectOutcome {
    pub deliveries: Vec<Delivery>,
    pub timer: Option<MatchTimer>,
}

/// Appends `event`, addressed to `to`, to the events to deliver.
pub fn send_event(out: &mut Vec<Delivery>, event: Event, to: u128)
    ensures
        final(out).deep_view() == old(out).deep_view().push(DeliveryView { to, event: event@ }),
{
    out.push(Delivery { to, event });
}

/// Appends `event` once for each of `recipients`, in their order.
pub fn broadcast(out: &mut Vec<Delivery>, event: &Event, recipients: &Vec<u128>)
    ensures
        final(out).deep_view() == old(out).deep_view() + to_each(recipients@, event@),
{
    let mut i: usize = 0;
    while i < recipients.len()
        invariant
            i <= recipients.len(),
            out.deep_view() == old(out).deep_view() + to_each(recipients@.take(i as int), event@),
        decreases recipients.len() - i,
    {
        send_event(out, event.clone(), recipients[i]);
        i += 1;
    }
}

/// Whether `id` is listed in `ids`.
pub fn contains_id(ids: &Vec<u128>, id: u128) -> (found: bool)
    ensures
        found == ids@.contains(id),
{
    let mut i: usize = 0;
    while i < ids.len()
        invariant
            i <= ids.len(),
            forall|j: int| 0 <= j < i ==> ids@[j] != id,
        decreases ids.len() - i,
    {
        if ids[i] == id {
            return true;
        }
        i += 1;
    }
    false
}

impl RoomState {
    fn has_user(&self, id: u128) -> (found: bool)
        ensures
            found == self@.is_user(id),
    {
        let mut i: usize = 0;
        while i < self.users.len()
            invariant
                i <= self.users.len(),
                forall|j: int| 0 <= j < i ==> keys(self@.users)[j] != id,
            decreases self.users.len() - i,
        {
            if self.users[i].0 == id {
                assert(keys(self@.users)[i as int] == id);
                return true;
            }
            i += 1;
        }
        false
    }

    fn user_name(&self, id: u128) -> (name: String)
        ensures
            name@ == name_of(self@.users, id),
    {
        let ghost users = self@.users;
        assert(users.subrange(0, users.len() as int) == users);
        let mut i: usize = 0;
        while i < self.users.len()
            invariant
                i <= self.users.len(),
                users == self@.users,
                name_of(users, id) == name_of(users.subrange(i as int, users.len() as int), id),
            decreases self.users.len() - i,
        {
            proof {
                let rest = users.subrange(i as int, users.len() as int);
                assert(rest.drop_first() == users.subrange(i + 1, users.len() as int));
            }
            if self.users[i].0 == id {
                return self.users[i].1.name.clone();
            }
            i += 1;
        }
        String::new()
    }

    fn snapshot(&self) -> (event: Event)
        ensures
            event@ == self@.snapshot(),
    {
        Event::ActiveMatchesChanged { matches: copy_pairings(&self.active_matches) }
    }

    fn seat(&mut self, id: u128, name: String)
        ensures
            final(self)@ == old(self)@.seated(id, name@),
    {
        if self.has_user(id) {
            let ghost before = self@.users;
            let mut i: usize = 0;
            while i < self.users.len()
                invariant
                    i <= self.users.len(),
                    before == old(self)@.users,
                    before.len() == self.users.len(),
                    self@.users == before.take(i as int).map_values(renamed(id, name@))
                        + before.skip(i as int),
                    self@.match_duration == old(self)@.match_duration,
                    self@.admins == old(self)@.admins,
                    self@.active == old(self)@.active,
                    self@.history == old(self)@.history,
                decreases self.users.len() - i,
            {
                let ghost prior = self@.users;
                assert(prior[i as int] == before.skip(i as int)[0]);
                if self.users[i].0 == id {
                    self.users.set(i, (id, UserConnectionInfo { name: name.clone() }));
                }
                proof {
                    let next = before.take(i + 1).map_values(renamed(id, name@)) + before.skip(
                        i + 1,
                    );
                    assert forall|j: int| 0 <= j < next.len() implies self@.users[j] == next[j] by {
                        if j < i {
                            assert(prior[j] == before.take(i as int).map_values(
                                renamed(id, name@),
                            )[j]);
                        } else if j == i {
                        } else {
                            assert(prior[j] == before.skip(i as int)[j - i]);
                        }
                    }
                }
                i += 1;
            }
            assert(self@.users =~= before.map_values(renamed(id, name@)));
        } else {
            self.users.push((id, UserConnectionInfo { name }));
            assert(self@.users =~= old(self)@.users.push((id, name@)));
        }
    }

    fn make_match(&mut self, new_user_id: u128) -> (made: Option<Pairing>)
        ensures
            made == old(self)@.proposal(new_user_id),
            final(self)@ == old(self)@.matched(new_user_id),
    {
        assert(keys(self.users@) =~= keys(self@.users));
        let next_match = calculate_next_match(
            &new_user_id,
            &self.users,
            &self.active_matches,
            &self.previous_matches,
        );
        match next_match {
            None => None,
            Some(pairing) => {
                self.active_matches.push(pairing);
                self.previous_matches.push(pairing);
                Some(pairing)
            },
        }
    }

    fn connect_admin(&mut self, id: u128) -> (out: Vec<Delivery>)
        ensures
            final(self)@ == old(self)@.join_admin(id),
            out.deep_view() == old(self)@.join_admin_deliveries(id),
    {
        if !contains_id(&self.admins, id) {
            self.admins.push(id);
        }
        let mut out: Vec<Delivery> = Vec::new();
        let ghost users = self@.users;
        let mut i: usize = 0;
        while i < self.users.len()
            invariant
                i <= self.users.len(),
                users == self@.users,
                out.deep_view() == users.take(i as int).map_values(present_to(id)),
            decreases self.users.len() - i,
        {
            let event = Event::UserPresent {
                id: self.users[i].0,
                name: self.users[i].1.name.clone(),
            };
            send_event(&mut out, event, id);
            i += 1;
        }
        let snapshot = self.snapshot();
        broadcast(&mut out, &snapshot, &self.admins);
        out
    }

    fn connect_user(&mut self, id: u128, name: String) -> (outcome: ConnectOutcome)
        ensures
            final(self)@ == old(self)@.join_user(id, name@),
            outcome.deliveries.deep_view() == old(self)@.join_user_deliveries(id, name@),
            outcome.timer == old(self)@.join_user_timer(id, name@),
    {
        self.seat(id, name.clone());
        let mut out: Vec<Delivery> = Vec::new();
        send_event(&mut out, Event::SelfJoined { id }, id);
        let joined = Event::UserJoined { id, name: name.clone() };
        broadcast(&mut out, &joined, &self.admins);
        match self.make_match(id) {
            Some(pairing) => {
                let peer_name = self.user_name(pairing.1);
                let duration: u64 = self.match_duration;
                send_event(
                    &mut out,
                    Event::UserMatched { id: pairing.1, name: peer_name, duration },
                    id,
                );
                send_event(&mut out, Event::UserMatched { id, name, duration }, pairing.1);
                let snapshot = self.snapshot();
                broadcast(&mut out, &snapshot, &self.admins);
                ConnectOutcome {
                    deliveries: out,
                    timer: Some(MatchTimer { pairing, seconds: duration }),
                }
            },
            None => ConnectOutcome { deliveries: out, timer: None },
        }
    }

    fn remove_user(&mut self, id: u128)
        ensures
            final(self)@ == (RoomView {
                users: old(self)@.users.filter(other_than(id)),
                ..old(self)@
            }),
    {
        let ghost before = self@.users;
        let ghost mut k: int = 0;
        let mut i: usize = 0;
        proof {
            reveal(Seq::filter);
        }
        while i < self.users.len()
            invariant
                0 <= k <= before.len(),
                i <= self.users.len(),
                self.users.len() - i == before.len() - k,
                i == before.take(k).filter(other_than(id)).len(),
                self@.users == before.take(k).filter(other_than(id)) + before.skip(k),
                self@.match_duration == old(self)@.match_duration,
                self@.admins == old(self)@.admins,
                self@.active == old(self)@.active,
                self@.history == old(self)@.history,
            decreases self.users.len() - i,
        {
            let ghost prior = self@.users;
            assert(prior[i as int] == before.skip(k)[0]);
            proof {
                assert(before.take(k + 1) =~= before.take(k).push(before[k]));
                before.take(k).lemma_filter_push(before[k], other_than(id));
            }
            if self.users[i].0 == id {
                self.users.remove(i);
                assert(self@.users =~= prior.remove(i as int));
            } else {
                i += 1;
            }
            proof {
                k = k + 1;
            }
        }
        assert(before.take(k) =~= before);
    }

    fn remove_admin(&mut self, id: u128)
        ensures
            final(self)@ == (RoomView {
                admins: old(self)@.admins.filter(differs_from(id)),
                ..old(self)@
            }),
    {
        let ghost before = self@.admins;
        let mut kept: Vec<u128> = Vec::new();
        let mut i: usize = 0;
        proof {
            reveal(Seq::filter);
        }
        while i < self.admins.len()
            invariant
                i <= self.admins.len(),
                before == self.admins@,
                kept@ == before.take(i as int).filter(differs_from(id)),
            decreases self.admins.len() - i,
        {
            proof {
                assert(before.take(i + 1) =~= before.take(i as int).push(before[i as int]));
                before.take(i as int).lemma_filter_push(before[i as int], differs_from(id));
            }
            if self.admins[i] != id {
                kept.push(self.admins[i]);
            }
            i += 1;
        }
        assert(before.take(before.len() as int) =~= before);
        self.admins = kept;
    }

    /// Drops every live pairing of `id` and tells each partner that `id` has
    /// left.
    fn dissolve_pairings_of(&mut self, id: u128, out: &mut Vec<Delivery>)
        ensures
            final(self)@ == (RoomView {
                active: old(self)@.active.filter(not_involving(id)),
                ..old(self)@
            }),
            final(out).deep_view() == old(out).deep_view() + old(self)@.active.filter(
                involving(id),
            ).map_values(farewell_from(id)),
    {
        let ghost before = self@.active;
        let mut kept: Vec<Pairing> = Vec::new();
        let mut i: usize = 0;
        proof {
            reveal(Seq::filter);
        }
        while i < self.active_matches.len()
            invariant
                i <= self.active_matches.len(),
                before == self.active_matches@,
                kept@ == before.take(i as int).filter(not_involving(id)),
                out.deep_view() == old(out).deep_view() + before.take(i as int).filter(
                    involving(id),
                ).map_values(farewell_from(id)),
            decreases self.active_matches.len() - i,
        {
            let pairing = self.active_matches[i];
            proof {
                let seen = before.take(i as int);
                assert(before.take(i + 1) =~= seen.push(pairing));
                seen.lemma_filter_push(pairing, not_involving(id));
                seen.lemma_filter_push(pairing, involving(id));
                seen.filter(involving(id)).lemma_push_map_commute(farewell_from(id), pairing);
            }
            if pairing.0 == id {
                send_event(out, Event::UserLeft { id }, pairing.1);
            } else if pairing.1 == id {
                send_event(out, Event::UserLeft { id }, pairing.0);
            } else {
                kept.push(pairing);
            }
            i += 1;
        }
        assert(before.take(before.len() as int) =~= before);
        self.active_matches = kept;
    }

    fn disconnect(&mut self, id: u128) -> (out: Vec<Delivery>)
        ensures
            final(self)@ == old(self)@.leave(id),
            out.deep_view() == old(self)@.leave_deliveries(id),
    {
        let mut out: Vec<Delivery> = Vec::new();
        if self.has_user(id) {
            self.remove_user(id);
            self.dissolve_pairings_of(id, &mut out);
            let snapshot = self.snapshot();
            broadcast(&mut out, &snapshot, &self.admins);
            broadcast(&mut out, &Event::UserLeft { id }, &self.admins);
        } else if contains_id(&self.admins, id) {
            self.remove_admin(id);
        }
        out
    }

    fn is_connected(&self, id: u128) -> (connected: bool)
        ensures
            connected == self@.is_connected(id),
    {
        self.has_user(id) || contains_id(&self.admins, id)
    }

    fn relay(&self, from: u128, envelope: Option<Event>) -> (out: Option<Delivery>)
        ensures
            out.deep_view() == self@.relay(from, envelope.deep_view()),
    {
        match envelope {
            Some(Event::ICECandidate { id, description }) => {
                if self.is_connected(id) {
                    Some(Delivery { to: id, event: Event::ICECandidate { id: from, description } })
                } else {
                    None
                }
            },
            Some(Event::RTCConnectionOffer { id, description }) => {
                if self.is_connected(id) {
                    Some(
                        Delivery {
                            to: id,
                            event: Event::RTCConnectionOffer { id: from, description },
                        },
                    )
                } else {
                    None
                }
            },
            Some(Event::RTCConnectionAnswer { id, description }) => {
                if self.is_connected(id) {
                    Some(
                        Delivery {
                            to: id,
                            event: Event::RTCConnectionAnswer { id: from, description },
                        },
                    )
                } else {
                    None
                }
            },
            _ => None,
        }
    }

    fn end_match(&mut self, pairing: Pairing) -> (out: Vec<Delivery>)
        ensures
            final(self)@ == old(self)@.expire(pairing),
            out.deep_view() == old(self)@.expire_deliveries(pairing),
    {
        let mut out: Vec<Delivery> = Vec::new();
        if holds_pairing(&self.active_matches, pairing.0, pairing.1) {
            let ghost before = self@.active;
            let mut kept: Vec<Pairing> = Vec::new();
            let mut i: usize = 0;
            proof {
                reveal(Seq::filter);
            }
            while i < self.active_matches.len()
                invariant
                    i <= self.active_matches.len(),
                    before == self.active_matches@,
                    kept@ == before.take(i as int).filter(not_joining(pairing.0, pairing.1)),
                decreases self.active_matches.len() - i,
            {
                let live = self.active_matches[i];
                proof {
                    assert(before.take(i + 1) =~= before.take(i as int).push(live));
                    before.take(i as int).lemma_filter_push(
                        live,
                        not_joining(pairing.0, pairing.1),
                    );
                }
                if !((live.0 == pairing.0 && live.1 == pairing.1) || (live.0 == pairing.1 && live.1
                    == pairing.0)) {
                    kept.push(live);
                }
                i += 1;
            }
            assert(before.take(before.len() as int) =~= before);
            self.active_matches = kept;
            send_event(&mut out, Event::MatchEnded { id: pairing.1 }, pairing.0);
            send_event(&mut out, Event::MatchEnded { id: pairing.0 }, pairing.1);
            let snapshot = self.snapshot();
            broadcast(&mut out, &snapshot, &self.admins);
        }
        out
    }
}

impl Room {
    /// A new, empty room named `name`, with a fresh identifier and a fresh
    /// admin token.
    pub fn new(name: String) -> (room: Room)
        ensures
            room.name == name,
            is_random_id(room.id),
            is_token(room.admin_token@),
            room@ == RoomView::empty(MATCH_DURATION),
            room@.valid(),
    {
        Room::with_identity(new_v4(), name, random_token(), MATCH_DURATION)
    }

    /// A new, empty room named `name`, with a fresh identifier and a fresh
    /// admin token, whose matches last `match_duration` seconds.
    pub fn with_match_duration(name: String, match_duration: u64) -> (room: Room)
        ensures
            room.name == name,
            is_random_id(room.id),
            is_token(room.admin_token@),
            room@ == RoomView::empty(match_duration),
            room@.valid(),
    {
        Room::with_identity(new_v4(), name, random_token(), match_duration)
    }

    /// A new, empty room with the given identity, whose matches last
    /// `match_duration` seconds.
    pub fn with_identity(id: u128, name: String, admin_token: String, match_duration: u64) -> (room:
        Room)
        ensures
            room.id == id,
            room.name == name,
            room.admin_token == admin_token,
            room@ == RoomView::empty(match_duration),
            room@.valid(),
    {
        proof {
            lemma_empty_room_is_valid(match_duration);
        }
        let state = RoomState {
            match_duration,
            admins: Vec::new(),
            users: Vec::new(),
            active_matches: Vec::new(),
            previous_matches: Vec::new(),
        };
        assert(state@.users =~= Seq::empty());
        Room { id, name, admin_token, state }
    }

    /// Takes a join. An admin is listed, sent every connected user, and every
    /// admin is sent the live pairings. A user is seated, greeted and
    /// announced to the admins; the matchmaking engine is run for it, and
    /// where it proposes a pairing, that pairing is recorded as live and in
    /// the history, both members are told, the admins are sent the live
    /// pairings, and a timer for the pairing is asked for.
    pub fn handle_connect(&mut self, msg: ClientConnect) -> (outcome: ConnectOutcome)
        ensures
            final(self).id == old(self).id,
            final(self).name == old(self).name,
            final(self).admin_token == old(self).admin_token,
            match msg.kind {
                ClientKind::Admin => {
                    &&& final(self)@ == old(self)@.join_admin(msg.id)
                    &&& outcome.deliveries.deep_view() == old(self)@.join_admin_deliveries(msg.id)
                    &&& outcome.timer is None
                },
                ClientKind::User(name) => {
                    &&& final(self)@ == old(self)@.join_user(msg.id, name@)
                    &&& outcome.deliveries.deep_view() == old(self)@.join_user_deliveries(
                        msg.id,
                        name@,
                    )
                    &&& outcome.timer == old(self)@.join_user_timer(msg.id, name@)
                    &&& old(self)@.valid() && exclusive(old(self)@.active) && !old(
                        self,
                    )@.pairs_again_while_paired(msg.id, name@) ==> exclusive(final(self)@.active)
                },
            },
            old(self)@.valid() ==> final(self)@.valid(),
    {
        match msg.kind {
            ClientKind::Admin => {
                proof {
                    if self@.valid() {
                        lemma_join_admin_keeps_valid(self@, msg.id);
                    }
                }
                ConnectOutcome { deliveries: self.state.connect_admin(msg.id), timer: None }
            },
            ClientKind::User(name) => {
                proof {
                    if self@.valid() {
                        lemma_join_user_keeps_valid(self@, msg.id, name@);
                    }
                }
                self.state.connect_user(msg.id, name)
            },
        }
    }

    /// Takes a leave. A user is removed, its partner in each live pairing is
    /// told and the pairing dropped, and the admins are sent the remaining
    /// live pairings and told of the departure. An admin is removed without
    /// a word. An unknown identifier changes nothing and sends nothing.
    pub fn handle_disconnect(&mut self, msg: ClientDisconnect) -> (out: Vec<Delivery>)
        ensures
            final(self).id == old(self).id,
            final(self).name == old(self).name,
            final(self).admin_token == old(self).admin_token,
            final(self)@ == old(self)@.leave(msg.id),
            out.deep_view() == old(self)@.leave_deliveries(msg.id),
            old(self)@.valid() ==> final(self)@.valid(),
            old(self)@.valid() && exclusive(old(self)@.active) ==> exclusive(final(self)@.active),
    {
        proof {
            if self@.valid() {
                lemma_leave_keeps_valid(self@, msg.id);
            }
        }
        self.state.disconnect(msg.id)
    }

    /// Relays what the session `from` handed in: `envelope` is its payload
    /// once parsed, or `None` where it could not be parsed. A signaling event
    /// addressed to a connected session comes back addressed to it, with
    /// `from` in place of the address. Anything else yields nothing.
    pub fn handle_message(&self, from: u128, envelope: Option<Event>) -> (out: Option<Delivery>)
        ensures
            out.deep_view() == self@.relay(from, envelope.deep_view()),
    {
        self.state.relay(from, envelope)
    }

    /// Takes the firing of the timer of `pairing`. While the pairing is live
    /// it is dropped, both members are told that the match has ended, and the
    /// admins are sent the remaining live pairings. Once it is gone, nothing
    /// changes and nothing is sent.
    pub fn handle_match_timer(&mut self, pairing: Pairing) -> (out: Vec<Delivery>)
        ensures
            final(self).id == old(self).id,
            final(self).name == old(self).name,
            final(self).admin_token == old(self).admin_token,
            final(self)@ == old(self)@.expire(pairing),
            out.deep_view() == old(self)@.expire_deliveries(pairing),
            old(self)@.valid() ==> final(self)@.valid(),
            old(self)@.valid() && exclusive(old(self)@.active) ==> exclusive(final(self)@.active),
    {
        proof {
            if self@.valid() {
                lemma_expire_keeps_valid(self@, pairing);
            }
        }
        self.state.end_match(pairing)
    }

    /// How long a match lasts in this room, in seconds.
    pub fn match_duration(&self) -> (seconds: u64)
        ensures
            seconds == self@.match_duration,
    {
        self.state.match_duration
    }

    /// Whether `id` is a connected user.
    pub fn is_user(&self, id: u128) -> (found: bool)
        ensures
            found == self@.is_user(id),
    {
        self.state.has_user(id)
    }

    /// Whether `id` is a connected admin.
    pub fn is_admin(&self, id: u128) -> (found: bool)
        ensures
            found == self@.is_admin(id),
    {
        contains_id(&self.state.admins, id)
    }

    /// Whether `id` is connected, as a user or as an admin.
    pub fn is_connected(&self, id: u128) -> (found: bool)
        ensures
            found == self@.is_connected(id),
    {
        self.state.is_connected(id)
    }

    /// The display name under which the user `id` is connected.
    pub fn user_name(&self, id: u128) -> (name: Option<String>)
        ensures
            name is Some <==> self@.is_user(id),
            name matches Some(found) ==> found@ == name_of(self@.users, id),
    {
        if self.state.has_user(id) {
            Some(self.state.user_name(id))
        } else {
            None
        }
    }

    /// The connected admins, in the order in which they joined.
    pub fn admins(&self) -> (ids: Vec<u128>)
        ensures
            ids@ == self@.admins,
    {
        let mut ids: Vec<u128> = Vec::new();
        let mut i: usize = 0;
        while i < self.state.admins.len()
            invariant
                i <= self.state.admins.len(),
                ids@ == self.state.admins@.take(i as int),
            decreases self.state.admins.len() - i,
        {
            ids.push(self.state.admins[i]);
            i += 1;
        }
        ids
    }

    /// The connected users, in the order in which they joined.
    pub fn users(&self) -> (ids: Vec<u128>)
        ensures
            ids@ == keys(self@.users),
    {
        let mut ids: Vec<u128> = Vec::new();
        let mut i: usize = 0;
        while i < self.state.users.len()
            invariant
                i <= self.state.users.len(),
                ids@ == keys(self@.users).take(i as int),
            decreases self.state.users.len() - i,
        {
            ids.push(self.state.users[i].0);
            i += 1;
        }
        ids
    }

    /// The live pairings, in order of creation.
    pub fn active_matches(&self) -> (pairings: Vec<Pairing>)
        ensures
            pairings@ == self@.active,
    {
        copy_pairings(&self.state.active_matches)
    }

    /// Every pairing ever made in this room, in order of creation.
    pub fn previous_matches(&self) -> (pairings: Vec<Pairing>)
        ensures
            pairings@ == self@.history,
    {
        copy_pairings(&self.state.previous_matches)
    }
}

} // verus!
