//! The event vocabulary spoken between a room and its connections.

use vstd::prelude::*;

verus! {

/// An event on the wire. Every event is a tag with nested data.
#[derive(Debug, PartialEq, Eq)]
pub enum Event {
    /// Tells a user its own identifier.
    SelfJoined { id: u128 },
    /// Tells an admin that a user has joined.
    UserJoined { id: u128, name: String },
    /// Tells a new admin of a user who is connected.
    UserPresent { id: u128, name: String },
    /// Tells a user of its peer and of how many seconds the match lasts.
    UserMatched { id: u128, name: String, duration: u64 },
    /// Tells a user that its match with the peer `id` has ended.
    MatchEnded { id: u128 },
    /// Tells an admin, or the partner of a user, that the user has left.
    UserLeft { id: u128 },
    /// Signaling between peers. Inbound, `id` names the peer addressed;
    /// outbound, the peer who sent it. The description is opaque.
    ICECandidate { id: u128, description: String },
    /// Signaling between peers, as `ICECandidate`.
    RTCConnectionOffer { id: u128, description: String },
    /// Signaling between peers, as `ICECandidate`.
    RTCConnectionAnswer { id: u128, description: String },
    /// Shows an admin the live pairings.
    ActiveMatchesChanged { matches: Vec<(u128, u128)> },
}

/// The mathematical content of an [`Event`].
pub enum EventView {
    SelfJoined { id: u128 },
    UserJoined { id: u128, name: Seq<char> },
    UserPresent { id: u128, name: Seq<char> },
    UserMatched { id: u128, name: Seq<char>, duration: u64 },
    MatchEnded { id: u128 },
    UserLeft { id: u128 },
    ICECandidate { id: u128, description: Seq<char> },
    RTCConnectionOffer { id: u128, description: Seq<char> },
    RTCConnectionAnswer { id: u128, description: Seq<char> },
    ActiveMatchesChanged { matches: Seq<(u128, u128)> },
}

impl View for Event {
    type V = EventView;

    open spec fn view(&self) -> EventView {
        match *self {
            Event::SelfJoined { id } => EventView::SelfJoined { id },
            Event::UserJoined { id, name } => EventView::UserJoined { id, name: name@ },
            Event::UserPresent { id, name } => EventView::UserPresent { id, name: name@ },
            Event::UserMatched { id, name, duration } => EventView::UserMatched {
                id,
                name: name@,
                duration,
            },
            Event::MatchEnded { id } => EventView::MatchEnded { id },
            Event::UserLeft { id } => EventView::UserLeft { id },
            Event::ICECandidate { id, description } => EventView::ICECandidate {
                id,
                description: description@,
            },
            Event::RTCConnectionOffer { id, description } => EventView::RTCConnectionOffer {
                id,
                description: description@,
            },
            Event::RTCConnectionAnswer { id, description } => EventView::RTCConnectionAnswer {
                id,
                description: description@,
            },
            Event::ActiveMatchesChanged { matches } => EventView::ActiveMatchesChanged {
                matches: matches@,
            },
        }
    }
}

impl DeepView for Event {
    type V = EventView;

    open spec fn deep_view(&self) -> EventView {
        self@
    }
}

/// The wire tag of an event.
pub open spec fn tag_of(event: EventView) -> Seq<char> {
    match event {
        EventView::SelfJoined { .. } => "self-joined"@,
        EventView::UserJoined { .. } => "user-joined"@,
        EventView::UserPresent { .. } => "user-present"@,
        EventView::UserMatched { .. } => "user-matched"@,
        EventView::MatchEnded { .. } => "match-ended"@,
        EventView::UserLeft { .. } => "user-left"@,
        EventView::ICECandidate { .. } => "ice-candidate"@,
        EventView::RTCConnectionOffer { .. } => "rtc-connection-offer"@,
        EventView::RTCConnectionAnswer { .. } => "rtc-connection-answer"@,
        EventView::ActiveMatchesChanged { .. } => "active-matches-changed"@,
    }
}

/// A copy of a list of pairings.
pub fn copy_pairings(pairings: &Vec<(u128, u128)>) -> (copy: Vec<(u128, u128)>)
    ensures
        copy@ == pairings@,
{
    let mut copy: Vec<(u128, u128)> = Vec::new();
    let mut i: usize = 0;
    while i < pairings.len()
        invariant
            i <= pairings.len(),
            copy@ == pairings@.subrange(0, i as int),
        decreases pairings.len() - i,
    {
        copy.push(pairings[i]);
        i += 1;
    }
    copy
}

impl Clone for Event {
    fn clone(&self) -> (copy: Event)
        ensures
            copy@ == self@,
    {
        match self {
            Event::SelfJoined { id } => Event::SelfJoined { id: *id },
            Event::UserJoined { id, name } => Event::UserJoined { id: *id, name: name.clone() },
            Event::UserPresent { id, name } => Event::UserPresent { id: *id, name: name.clone() },
            Event::UserMatched { id, name, duration } => Event::UserMatched {
                id: *id,
                name: name.clone(),
                duration: *duration,
            },
            Event::MatchEnded { id } => Event::MatchEnded { id: *id },
            Event::UserLeft { id } => Event::UserLeft { id: *id },
            Event::ICECandidate { id, description } => Event::ICECandidate {
                id: *id,
                description: description.clone(),
            },
            Event::RTCConnectionOffer { id, description } => Event::RTCConnectionOffer {
                id: *id,
                description: description.clone(),
            },
            Event::RTCConnectionAnswer { id, description } => Event::RTCConnectionAnswer {
                id: *id,
                description: description.clone(),
            },
            Event::ActiveMatchesChanged { matches } => Event::ActiveMatchesChanged {
                matches: copy_pairings(matches),
            },
        }
    }
}

impl Event {
    /// The tag under which this event travels on the wire.
    pub fn tag(&self) -> (tag: &'static str)
        ensures
            tag@ == tag_of(self@),
    {
        match self {
            Event::SelfJoined { .. } => "self-joined",
            Event::UserJoined { .. } => "user-joined",
            Event::UserPresent { .. } => "user-present",
            Event::UserMatched { .. } => "user-matched",
            Event::MatchEnded { .. } => "match-ended",
            Event::UserLeft { .. } => "user-left",
            Event::ICECandidate { .. } => "ice-candidate",
            Event::RTCConnectionOffer { .. } => "rtc-connection-offer",
            Event::RTCConnectionAnswer { .. } => "rtc-connection-answer",
            Event::ActiveMatchesChanged { .. } => "active-matches-changed",
        }
    }
}

/// One event addressed to one connection.
#[derive(Debug, PartialEq, Eq)]
pub struct Delivery {
    pub to: u128,
    pub event: Event,
}

/// The mathematical content of a [`Delivery`].
pub struct DeliveryView {
    pub to: u128,
    pub event: EventView,
}

impl View for Delivery {
    type V = DeliveryView;

    open spec fn view(&self) -> DeliveryView {
        DeliveryView { to: self.to, event: self.event@ }
    }
}

impl DeepView for Delivery {
    type V = DeliveryView;

    open spec fn deep_view(&self) -> DeliveryView {
        self@
    }
}

} // verus!
