//! What the three connection endpoints decide: the creation of a room, and
//! the admission of a user or of an admin to a room.

use crate::app_state::{lookup, AppState, RoomEntry};
use crate::connection::{Connection, ConnectionKind};
use crate::model::RoomView;
use crate::random::{is_random_id, is_token, random_token};
use crate::room::Room;
use vstd::prelude::*;
use vstd::string::StringExecFns;

verus! {

/// What is known or asked of a room. A request to create a room gives a
/// name only; the answer carries the identifier and the admin token as well.
#[derive(Debug, PartialEq, Eq)]
pub struct RoomInfo {
    pub name: String,
    pub admin_token: Option<String>,
    pub id: Option<u128>,
}

/// The body of a room creation request and of its answer.
#[derive(Debug, PartialEq, Eq)]
pub struct RoomData {
    pub attributes: RoomInfo,
}

/// The answer that describes `room` in full, admin token included.
pub open spec fn description_of(room: Room) -> RoomData {
    RoomData {
        attributes: RoomInfo {
            name: room.name,
            admin_token: Some(room.admin_token),
            id: Some(room.id),
        },
    }
}

/// Creates the room that `room_data` asks for: an empty room of that name
/// with a fresh identifier and a fresh admin token, whose matches last
/// `match_duration` seconds. The answer shows the identifier, the name and
/// the token.
pub fn create_room(room_data: &RoomData, match_duration: u64) -> (created: (Room, RoomData))
    ensures
        created.0.name == room_data.attributes.name,
        is_random_id(created.0.id),
        is_token(created.0.admin_token@),
        created.0@ == RoomView::empty(match_duration),
        created.1 == description_of(created.0),
{
    let new_room = Room::with_match_duration(room_data.attributes.name.clone(), match_duration);
    let response = RoomData {
        attributes: RoomInfo {
            id: Some(new_room.id),
            name: new_room.name.clone(),
            admin_token: Some(new_room.admin_token.clone()),
        },
    };
    (new_room, response)
}

/// Whether the registry admits an admin to `room_id` on `admin_token`: the
/// room is registered and the token is, character for character, its own.
pub open spec fn admits_admin<H>(
    rooms: Seq<(u128, RoomEntry<H>)>,
    room_id: u128,
    admin_token: Seq<char>,
) -> bool {
    match lookup(rooms, room_id) {
        Some(entry) => entry.admin_token@ == admin_token,
        None => false,
    }
}

/// Decides an admin's request to connect to `room_id` at time `now`. An
/// admin session comes into being if and only if the room is registered and
/// `admin_token` equals the room's admin token; on any other token there is
/// no session.
pub fn start_admin_connection<H>(
    state: &AppState<H>,
    room_id: u128,
    admin_token: &String,
    now: u64,
) -> (session: Option<Connection>)
    ensures
        session is Some <==> admits_admin(state.rooms@, room_id, admin_token@),
        session matches Some(admin) ==> {
            &&& admin.kind == ConnectionKind::Admin
            &&& admin.last_heartbeat == now
            &&& is_random_id(admin.id)
        },
{
    match state.get(room_id) {
        Some(entry) => {
            if entry.admin_token == *admin_token {
                Some(Connection::admin(now))
            } else {
                None
            }
        },
        None => None,
    }
}

/// What a user's request to connect comes to: the session of the user, and
/// the room to start and register where the request is the first to refer to
/// its room.
pub struct Admission {
    pub session: Connection,
    pub new_room: Option<Room>,
}

/// The display name of a room that comes into being on first reference.
pub open spec fn default_room_name() -> Seq<char> {
    "test"@
}

/// Decides a user's request to connect to `room_id` under `name` at time
/// `now`. There is always a user session of that name. Where the room is not
/// registered yet, there is a new, empty room as well: it carries the
/// identifier `room_id`, the default name and a fresh admin token, and its
/// matches last `match_duration` seconds.
pub fn start_connection<H>(
    state: &AppState<H>,
    room_id: u128,
    name: String,
    now: u64,
    match_duration: u64,
) -> (admission: Admission)
    ensures
        admission.session.kind == ConnectionKind::User(name),
        admission.session.last_heartbeat == now,
        is_random_id(admission.session.id),
        admission.new_room is Some <==> lookup(state.rooms@, room_id) is None,
        admission.new_room matches Some(room) ==> {
            &&& room.id == room_id
            &&& room.name@ == default_room_name()
            &&& is_token(room.admin_token@)
            &&& room@ == RoomView::empty(match_duration)
        },
{
    let new_room = match state.get(room_id) {
        Some(_) => None,
        None => Some(
            Room::with_identity(room_id, String::from_str("test"), random_token(), match_duration),
        ),
    };
    Admission { session: Connection::user(name, now), new_room }
}

} // verus!
