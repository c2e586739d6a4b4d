use matchroom::app_state::{AppState, RoomEntry};
use matchroom::connection::ConnectionKind;
use matchroom::handlers::{
    create_room, start_admin_connection, start_connection, RoomData, RoomInfo,
};
use matchroom::util::{is_dev_mode, match_duration, DEV_MATCH_DURATION};

fn entry(token: &str, addr: &'static str) -> RoomEntry<&'static str> {
    RoomEntry { admin_token: token.to_string(), addr }
}

fn registry() -> AppState<&'static str> {
    let mut state = AppState::new();
    state.insert(1, entry("T", "room-one"));
    state.insert(2, entry("other", "room-two"));
    state
}

#[test]
fn a_created_room_is_described_in_full() {
    let request =
        RoomData { attributes: RoomInfo { name: "lounge".to_string(), admin_token: None, id: None } };
    let (room, response) = create_room(&request, 120);
    assert_eq!(room.match_duration(), 120);
    assert_eq!(room.name, "lounge");
    assert!(room.users().is_empty());
    assert!(room.admins().is_empty());
    assert_eq!(room.admin_token.chars().count(), 32);
    assert!(room.admin_token.chars().all(|c| c.is_ascii_alphanumeric()));
    assert_eq!(
        response,
        RoomData {
            attributes: RoomInfo {
                name: "lounge".to_string(),
                admin_token: Some(room.admin_token.clone()),
                id: Some(room.id),
            },
        }
    );
}

#[test]
fn registry_finds_what_was_registered() {
    let mut state = registry();
    assert_eq!(state.get(1).map(|e| e.addr), Some("room-one"));
    assert_eq!(state.get(2).map(|e| e.addr), Some("room-two"));
    assert!(state.get(3).is_none());
    assert_eq!(state.rooms.len(), 2);
    state.insert(1, entry("new", "room-one-again"));
    assert_eq!(state.rooms.len(), 2);
    assert_eq!(state.get(1).map(|e| e.addr), Some("room-one-again"));
    assert_eq!(state.get(1).map(|e| e.admin_token.clone()), Some("new".to_string()));
    assert_eq!(state.get(2).map(|e| e.addr), Some("room-two"));
    let empty: AppState<u8> = AppState::new();
    assert!(empty.get(1).is_none());
}

#[test]
fn admin_is_admitted_on_the_room_s_own_token() {
    let state = registry();
    let session = start_admin_connection(&state, 1, &"T".to_string(), 42).unwrap();
    assert_eq!(session.kind, ConnectionKind::Admin);
    assert_eq!(session.last_heartbeat, 42);
    assert_eq!((session.id >> 76) & 0xf, 4);
}

#[test]
fn admin_is_refused_on_any_other_token() {
    let state = registry();
    assert_eq!(start_admin_connection(&state, 1, &"t".to_string(), 42), None);
    assert_eq!(start_admin_connection(&state, 1, &"".to_string(), 42), None);
    assert_eq!(start_admin_connection(&state, 1, &"T ".to_string(), 42), None);
    assert_eq!(start_admin_connection(&state, 1, &"TT".to_string(), 42), None);
    // The token of another room does not open this one.
    assert_eq!(start_admin_connection(&state, 1, &"other".to_string(), 42), None);
    assert!(start_admin_connection(&state, 2, &"other".to_string(), 42).is_some());
}

#[test]
fn admin_is_refused_in_an_unknown_room() {
    let state = registry();
    assert_eq!(start_admin_connection(&state, 3, &"T".to_string(), 42), None);
}

#[test]
fn user_is_admitted_to_a_registered_room() {
    let state = registry();
    let admission = start_connection(&state, 2, "Ada".to_string(), 9, 120);
    assert_eq!(admission.session.kind, ConnectionKind::User("Ada".to_string()));
    assert_eq!(admission.session.last_heartbeat, 9);
    assert_eq!((admission.session.id >> 76) & 0xf, 4);
    assert!(admission.new_room.is_none());
}

#[test]
fn a_room_comes_into_being_on_first_reference() {
    let mut state = registry();
    let admission = start_connection(&state, 3, "Ada".to_string(), 9, 45);
    assert_eq!(admission.session.kind, ConnectionKind::User("Ada".to_string()));
    let room = admission.new_room.unwrap();
    assert_eq!(room.id, 3);
    assert_eq!(room.name, "test");
    assert_eq!(room.match_duration(), 45);
    assert_eq!(room.admin_token.chars().count(), 32);
    assert!(room.admin_token.chars().all(|c| c.is_ascii_alphanumeric()));
    assert!(room.users().is_empty());
    assert!(room.admins().is_empty());
    // Once it is registered, the next request finds it.
    state.insert(3, entry(&room.admin_token, "room-three"));
    assert!(start_connection(&state, 3, "Bob".to_string(), 10, 45).new_room.is_none());
    assert!(start_admin_connection(&state, 3, &room.admin_token, 11).is_some());
}

#[test]
fn dev_mode_is_the_first_argument() {
    let args = |list: &[&str]| list.iter().map(|s| s.to_string()).collect::<Vec<String>>();
    assert!(is_dev_mode(&args(&["server", "--dev"])));
    assert!(is_dev_mode(&args(&["server", "--dev", "more"])));
    assert!(!is_dev_mode(&args(&["server"])));
    assert!(!is_dev_mode(&args(&[])));
    assert!(!is_dev_mode(&args(&["server", "--prod"])));
    assert!(!is_dev_mode(&args(&["server", "more", "--dev"])));
    assert!(!is_dev_mode(&args(&["--dev"])));
}

#[test]
fn matches_are_short_in_dev_mode() {
    assert_eq!(match_duration(false), 120);
    assert_eq!(match_duration(true), DEV_MATCH_DURATION);
    assert_eq!(match_duration(true), 10);
}
