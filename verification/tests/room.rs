use matchroom::event::{Delivery, Event};
use matchroom::messages::{ClientConnect, ClientDisconnect};
use matchroom::model::MatchTimer;
use matchroom::room::{Room, MATCH_DURATION};

const ADMIN: u128 = 0xad;
const A: u128 = 0xa;
const B: u128 = 0xb;
const C: u128 = 0xc;
const D: u128 = 0xd;

fn room() -> Room {
    Room::with_identity(1, "lounge".to_string(), "secret".to_string(), 120)
}

fn to(to: u128, event: Event) -> Delivery {
    Delivery { to, event }
}

fn join_user(room: &mut Room, id: u128, name: &str) -> Vec<Delivery> {
    room.handle_connect(ClientConnect::user(id, name.to_string())).deliveries
}

fn join_admin(room: &mut Room, id: u128) -> Vec<Delivery> {
    room.handle_connect(ClientConnect::admin(id)).deliveries
}

fn leave(room: &mut Room, id: u128) -> Vec<Delivery> {
    room.handle_disconnect(ClientDisconnect { id })
}

fn received(deliveries: &Vec<Delivery>, id: u128) -> Vec<Event> {
    let mut events = Vec::new();
    for delivery in deliveries {
        if delivery.to == id {
            events.push(delivery.event.clone());
        }
    }
    events
}

#[test]
fn new_room_is_empty_with_fresh_identity() {
    let room = Room::new("lounge".to_string());
    assert_eq!(room.name, "lounge");
    assert_eq!(room.admin_token.chars().count(), 32);
    assert!(room.admin_token.chars().all(|c| c.is_ascii_alphanumeric()));
    assert_eq!((room.id >> 76) & 0xf, 4);
    assert_eq!((room.id >> 62) & 0x3, 2);
    assert_eq!(room.match_duration(), MATCH_DURATION);
    assert_eq!(room.match_duration(), 120);
    assert!(room.users().is_empty());
    assert!(room.admins().is_empty());
    assert!(room.active_matches().is_empty());
    assert!(room.previous_matches().is_empty());
}

#[test]
fn two_new_rooms_differ_in_identity() {
    let one = Room::new("x".to_string());
    let two = Room::new("x".to_string());
    assert_ne!(one.id, two.id);
    assert_ne!(one.admin_token, two.admin_token);
}

#[test]
fn room_with_match_duration_keeps_it() {
    let mut room = Room::with_match_duration("quick".to_string(), 7);
    assert_eq!(room.match_duration(), 7);
    join_user(&mut room, A, "Ada");
    let outcome = room.handle_connect(ClientConnect::user(B, "Bob".to_string()));
    assert_eq!(outcome.timer, Some(MatchTimer { pairing: (B, A), seconds: 7 }));
    assert_eq!(
        received(&outcome.deliveries, A),
        vec![Event::UserMatched { id: B, name: "Bob".to_string(), duration: 7 }]
    );
}

#[test]
fn first_user_is_greeted_and_waits() {
    let mut room = room();
    let outcome = room.handle_connect(ClientConnect::user(A, "Ada".to_string()));
    assert_eq!(outcome.deliveries, vec![to(A, Event::SelfJoined { id: A })]);
    assert_eq!(outcome.timer, None);
    assert_eq!(room.users(), vec![A]);
    assert!(room.active_matches().is_empty());
    assert!(room.previous_matches().is_empty());
}

#[test]
fn two_users_join_an_empty_room_and_are_matched() {
    let mut room = room();
    let mut admin_saw = received(&join_admin(&mut room, ADMIN), ADMIN);

    let first = join_user(&mut room, A, "Ada");
    assert_eq!(received(&first, A), vec![Event::SelfJoined { id: A }]);
    admin_saw.extend(received(&first, ADMIN));

    let outcome = room.handle_connect(ClientConnect::user(B, "Bob".to_string()));
    assert_eq!(
        received(&outcome.deliveries, B),
        vec![
            Event::SelfJoined { id: B },
            Event::UserMatched { id: A, name: "Ada".to_string(), duration: 120 },
        ]
    );
    assert_eq!(
        received(&outcome.deliveries, A),
        vec![Event::UserMatched { id: B, name: "Bob".to_string(), duration: 120 }]
    );
    assert_eq!(outcome.timer, Some(MatchTimer { pairing: (B, A), seconds: 120 }));
    admin_saw.extend(received(&outcome.deliveries, ADMIN));

    assert_eq!(
        admin_saw,
        vec![
            Event::ActiveMatchesChanged { matches: vec![] },
            Event::UserJoined { id: A, name: "Ada".to_string() },
            Event::UserJoined { id: B, name: "Bob".to_string() },
            Event::ActiveMatchesChanged { matches: vec![(B, A)] },
        ]
    );
    assert_eq!(room.active_matches(), vec![(B, A)]);
    assert_eq!(room.previous_matches(), vec![(B, A)]);
}

#[test]
fn user_join_emits_events_in_order() {
    let mut room = room();
    join_admin(&mut room, ADMIN);
    join_admin(&mut room, ADMIN + 1);
    join_user(&mut room, A, "Ada");
    let out = join_user(&mut room, B, "Bob");
    assert_eq!(
        out,
        vec![
            to(B, Event::SelfJoined { id: B }),
            to(ADMIN, Event::UserJoined { id: B, name: "Bob".to_string() }),
            to(ADMIN + 1, Event::UserJoined { id: B, name: "Bob".to_string() }),
            to(B, Event::UserMatched { id: A, name: "Ada".to_string(), duration: 120 }),
            to(A, Event::UserMatched { id: B, name: "Bob".to_string(), duration: 120 }),
            to(ADMIN, Event::ActiveMatchesChanged { matches: vec![(B, A)] }),
            to(ADMIN + 1, Event::ActiveMatchesChanged { matches: vec![(B, A)] }),
        ]
    );
}

#[test]
fn admin_is_shown_every_user_and_all_admins_the_live_pairings() {
    let mut room = room();
    join_user(&mut room, A, "Ada");
    join_user(&mut room, B, "Bob");
    join_user(&mut room, C, "Cy");
    join_admin(&mut room, ADMIN);
    let outcome = room.handle_connect(ClientConnect::admin(ADMIN + 1));
    assert_eq!(outcome.timer, None);
    assert_eq!(
        outcome.deliveries,
        vec![
            to(ADMIN + 1, Event::UserPresent { id: A, name: "Ada".to_string() }),
            to(ADMIN + 1, Event::UserPresent { id: B, name: "Bob".to_string() }),
            to(ADMIN + 1, Event::UserPresent { id: C, name: "Cy".to_string() }),
            to(ADMIN, Event::ActiveMatchesChanged { matches: vec![(B, A)] }),
            to(ADMIN + 1, Event::ActiveMatchesChanged { matches: vec![(B, A)] }),
        ]
    );
    assert_eq!(room.admins(), vec![ADMIN, ADMIN + 1]);
    assert!(room.is_admin(ADMIN));
    assert!(!room.is_user(ADMIN));
    assert!(room.is_connected(ADMIN));
}

#[test]
fn admin_joining_twice_is_listed_once() {
    let mut room = room();
    join_admin(&mut room, ADMIN);
    let out = join_admin(&mut room, ADMIN);
    assert_eq!(room.admins(), vec![ADMIN]);
    assert_eq!(out, vec![to(ADMIN, Event::ActiveMatchesChanged { matches: vec![] })]);
}

#[test]
fn paired_user_disconnects() {
    let mut room = room();
    join_admin(&mut room, ADMIN);
    join_user(&mut room, A, "Ada");
    join_user(&mut room, B, "Bob");
    assert_eq!(room.active_matches(), vec![(B, A)]);

    let out = leave(&mut room, A);
    assert_eq!(received(&out, B), vec![Event::UserLeft { id: A }]);
    assert_eq!(
        received(&out, ADMIN),
        vec![Event::ActiveMatchesChanged { matches: vec![] }, Event::UserLeft { id: A }]
    );
    assert_eq!(received(&out, A), vec![]);
    assert!(room.active_matches().is_empty());
    assert_eq!(room.previous_matches(), vec![(B, A)]);
    assert_eq!(room.users(), vec![B]);

    // Under a new identifier the one who left can be matched with B again.
    let fresh: u128 = 0xa2;
    let outcome = room.handle_connect(ClientConnect::user(fresh, "Ada".to_string()));
    assert_eq!(outcome.timer, Some(MatchTimer { pairing: (fresh, B), seconds: 120 }));
    assert_eq!(room.active_matches(), vec![(fresh, B)]);
    assert_eq!(room.previous_matches(), vec![(B, A), (fresh, B)]);
}

#[test]
fn disconnect_dissolves_only_the_affected_pairing() {
    let mut room = room();
    join_user(&mut room, A, "Ada");
    join_user(&mut room, B, "Bob");
    join_user(&mut room, C, "Cy");
    join_user(&mut room, D, "Di");
    assert_eq!(room.active_matches(), vec![(B, A), (D, C)]);

    let out = leave(&mut room, A);
    assert_eq!(out, vec![to(B, Event::UserLeft { id: A })]);
    assert_eq!(room.active_matches(), vec![(D, C)]);
    assert_eq!(room.previous_matches(), vec![(B, A), (D, C)]);
    assert_eq!(room.users(), vec![B, C, D]);
}

#[test]
fn second_member_of_a_pairing_disconnects() {
    let mut room = room();
    join_user(&mut room, A, "Ada");
    join_user(&mut room, B, "Bob");
    let out = leave(&mut room, B);
    assert_eq!(out, vec![to(A, Event::UserLeft { id: B })]);
    assert!(room.active_matches().is_empty());
}

#[test]
fn admin_disconnects_silently() {
    let mut room = room();
    join_admin(&mut room, ADMIN);
    join_admin(&mut room, ADMIN + 1);
    join_user(&mut room, A, "Ada");
    let out = leave(&mut room, ADMIN);
    assert_eq!(out, vec![]);
    assert_eq!(room.admins(), vec![ADMIN + 1]);
    assert_eq!(room.users(), vec![A]);
}

#[test]
fn unknown_identifier_disconnects_without_effect() {
    let mut room = room();
    join_admin(&mut room, ADMIN);
    join_user(&mut room, A, "Ada");
    join_user(&mut room, B, "Bob");
    let out = leave(&mut room, 0x99);
    assert_eq!(out, vec![]);
    assert_eq!(room.users(), vec![A, B]);
    assert_eq!(room.admins(), vec![ADMIN]);
    assert_eq!(room.active_matches(), vec![(B, A)]);
    // A second leave of one who has left is no different.
    leave(&mut room, A);
    assert_eq!(leave(&mut room, A), vec![]);
}

#[test]
fn nobody_is_matched_twice_with_the_same_peer() {
    let mut room = room();
    join_user(&mut room, A, "Ada");
    join_user(&mut room, B, "Bob");
    assert_eq!(room.handle_match_timer((B, A)).len(), 2);
    assert!(room.active_matches().is_empty());
    // B joins again under the same identifier: A is free but already met.
    let outcome = room.handle_connect(ClientConnect::user(B, "Bob".to_string()));
    assert_eq!(outcome.timer, None);
    assert_eq!(outcome.deliveries, vec![to(B, Event::SelfJoined { id: B })]);
    assert!(room.active_matches().is_empty());
    assert_eq!(room.previous_matches(), vec![(B, A)]);
    // A third user is matched with the first free user it has not met.
    let outcome = room.handle_connect(ClientConnect::user(C, "Cy".to_string()));
    assert_eq!(outcome.timer, Some(MatchTimer { pairing: (C, A), seconds: 120 }));
}

#[test]
fn no_user_is_in_two_live_pairings() {
    let mut room = room();
    let mut id: u128 = 1;
    while id <= 9 {
        join_user(&mut room, id, "someone");
        id += 1;
    }
    leave(&mut room, 3);
    join_user(&mut room, 10, "someone");
    join_user(&mut room, 11, "someone");
    let live = room.active_matches();
    let mut members: Vec<u128> = Vec::new();
    for (a, b) in &live {
        assert_ne!(a, b);
        assert!(!members.contains(a));
        members.push(*a);
        assert!(!members.contains(b));
        members.push(*b);
    }
    assert_eq!(live, vec![(2, 1), (6, 5), (8, 7), (10, 4), (11, 9)]);
}

#[test]
fn rejoining_under_a_known_identifier_takes_the_new_name_in_place() {
    let mut room = room();
    join_user(&mut room, A, "Ada");
    join_user(&mut room, B, "Bob");
    join_user(&mut room, C, "Cy");
    join_user(&mut room, C, "Cyrus");
    assert_eq!(room.users(), vec![A, B, C]);
    assert_eq!(room.user_name(C), Some("Cyrus".to_string()));
    assert_eq!(room.user_name(A), Some("Ada".to_string()));
    assert_eq!(room.user_name(D), None);
}

#[test]
fn match_timer_ends_a_live_pairing() {
    let mut room = room();
    join_admin(&mut room, ADMIN);
    join_user(&mut room, A, "Ada");
    join_user(&mut room, B, "Bob");
    join_user(&mut room, C, "Cy");
    join_user(&mut room, D, "Di");
    let out = room.handle_match_timer((B, A));
    assert_eq!(
        out,
        vec![
            to(B, Event::MatchEnded { id: A }),
            to(A, Event::MatchEnded { id: B }),
            to(ADMIN, Event::ActiveMatchesChanged { matches: vec![(D, C)] }),
        ]
    );
    assert_eq!(room.active_matches(), vec![(D, C)]);
    assert_eq!(room.previous_matches(), vec![(B, A), (D, C)]);
    assert_eq!(room.users(), vec![A, B, C, D]);
}

#[test]
fn match_timer_names_the_pairing_in_either_orientation() {
    let mut room = room();
    join_user(&mut room, A, "Ada");
    join_user(&mut room, B, "Bob");
    let out = room.handle_match_timer((A, B));
    assert_eq!(
        out,
        vec![to(A, Event::MatchEnded { id: B }), to(B, Event::MatchEnded { id: A })]
    );
    assert!(room.active_matches().is_empty());
}

#[test]
fn match_timer_after_disconnect_is_silent() {
    let mut room = room();
    join_admin(&mut room, ADMIN);
    join_user(&mut room, A, "Ada");
    join_user(&mut room, B, "Bob");
    leave(&mut room, A);
    let out = room.handle_match_timer((B, A));
    assert_eq!(out, vec![]);
    assert!(room.active_matches().is_empty());
    assert_eq!(room.users(), vec![B]);
}

#[test]
fn match_timer_firing_twice_is_silent_the_second_time() {
    let mut room = room();
    join_user(&mut room, A, "Ada");
    join_user(&mut room, B, "Bob");
    assert_eq!(room.handle_match_timer((B, A)).len(), 2);
    assert_eq!(room.handle_match_timer((B, A)), vec![]);
    assert_eq!(room.handle_match_timer((0x77, 0x78)), vec![]);
}

#[test]
fn ice_candidate_is_relayed_with_the_sender_in_place_of_the_address() {
    let mut room = room();
    join_admin(&mut room, ADMIN);
    join_user(&mut room, A, "Ada");
    join_user(&mut room, B, "Bob");
    let out = room.handle_message(
        A,
        Some(Event::ICECandidate { id: B, description: "x".to_string() }),
    );
    assert_eq!(out, Some(to(B, Event::ICECandidate { id: A, description: "x".to_string() })));

    leave(&mut room, B);
    let out = room.handle_message(
        A,
        Some(Event::ICECandidate { id: B, description: "x".to_string() }),
    );
    assert_eq!(out, None);
}

#[test]
fn offers_and_answers_are_relayed() {
    let mut room = room();
    join_user(&mut room, A, "Ada");
    join_user(&mut room, B, "Bob");
    assert_eq!(
        room.handle_message(
            B,
            Some(Event::RTCConnectionOffer { id: A, description: "sdp-offer".to_string() })
        ),
        Some(to(A, Event::RTCConnectionOffer { id: B, description: "sdp-offer".to_string() }))
    );
    assert_eq!(
        room.handle_message(
            A,
            Some(Event::RTCConnectionAnswer { id: B, description: "sdp-answer".to_string() })
        ),
        Some(to(B, Event::RTCConnectionAnswer { id: A, description: "sdp-answer".to_string() }))
    );
}

#[test]
fn signaling_reaches_a_connected_admin_too() {
    let mut room = room();
    join_admin(&mut room, ADMIN);
    assert_eq!(
        room.handle_message(A, Some(Event::ICECandidate { id: ADMIN, description: "c".to_string() })),
        Some(to(ADMIN, Event::ICECandidate { id: A, description: "c".to_string() }))
    );
}

#[test]
fn anything_but_signaling_is_dropped() {
    let mut room = room();
    join_user(&mut room, A, "Ada");
    join_user(&mut room, B, "Bob");
    assert_eq!(room.handle_message(A, None), None);
    assert_eq!(room.handle_message(A, Some(Event::SelfJoined { id: B })), None);
    assert_eq!(
        room.handle_message(A, Some(Event::UserJoined { id: B, name: "x".to_string() })),
        None
    );
    assert_eq!(
        room.handle_message(A, Some(Event::UserPresent { id: B, name: "x".to_string() })),
        None
    );
    assert_eq!(
        room.handle_message(
            A,
            Some(Event::UserMatched { id: B, name: "x".to_string(), duration: 1 })
        ),
        None
    );
    assert_eq!(room.handle_message(A, Some(Event::MatchEnded { id: B })), None);
    assert_eq!(room.handle_message(A, Some(Event::UserLeft { id: B })), None);
    assert_eq!(
        room.handle_message(A, Some(Event::ActiveMatchesChanged { matches: vec![(A, B)] })),
        None
    );
    assert_eq!(room.users(), vec![A, B]);
    assert_eq!(room.active_matches(), vec![(B, A)]);
}

#[test]
fn room_identity_survives_every_operation() {
    let mut room = room();
    join_admin(&mut room, ADMIN);
    join_user(&mut room, A, "Ada");
    join_user(&mut room, B, "Bob");
    room.handle_match_timer((B, A));
    leave(&mut room, A);
    assert_eq!(room.id, 1);
    assert_eq!(room.name, "lounge");
    assert_eq!(room.admin_token, "secret");
}
