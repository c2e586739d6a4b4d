//! The room registry: which rooms exist, and under which handle each is
//! reached.

use vstd::prelude::*;

verus! {

/// What the registry keeps of a room: the secret that admits admins, and the
/// handle under which the room's authority is reached.
pub struct RoomEntry<H> {
    pub admin_token: String,
    pub addr: H,
}

/// The registry of rooms, keyed by room identifier.
pub struct AppState<H> {
    pub rooms: Vec<(u128, RoomEntry<H>)>,
}

/// The entry under which `room_id` is registered in `rooms`: the first one
/// that carries the identifier.
pub open spec fn lookup<H>(rooms: Seq<(u128, RoomEntry<H>)>, room_id: u128) -> Option<RoomEntry<H>>
    decreases rooms.len(),
{
    if rooms.len() == 0 {
        None
    } else if rooms[0].0 == room_id {
        Some(rooms[0].1)
    } else {
        lookup(rooms.drop_first(), room_id)
    }
}

impl<H> AppState<H> {
    /// A registry without rooms.
    pub fn new() -> (state: AppState<H>)
        ensures
            state.rooms@ == Seq::<(u128, RoomEntry<H>)>::empty(),
            forall|room_id: u128| lookup(state.rooms@, room_id) is None,
    {
        AppState { rooms: Vec::new() }
    }

    /// The entry of the room `room_id`, if it is registered.
    pub fn get(&self, room_id: u128) -> (entry: Option<&RoomEntry<H>>)
        ensures
            match entry {
                Some(found) => lookup(self.rooms@, room_id) == Some(*found),
                None => lookup(self.rooms@, room_id) is None,
            },
    {
        let ghost rooms = self.rooms@;
        assert(rooms.subrange(0, rooms.len() as int) == rooms);
        let mut i: usize = 0;
        while i < self.rooms.len()
            invariant
                i <= self.rooms.len(),
                rooms == self.rooms@,
                lookup(rooms, room_id) == lookup(
                    rooms.subrange(i as int, rooms.len() as int),
                    room_id,
                ),
            decreases self.rooms.len() - i,
        {
            proof {
                let rest = rooms.subrange(i as int, rooms.len() as int);
                assert(rest[0] == rooms[i as int]);
                assert(rest.drop_first() == rooms.subrange(i + 1, rooms.len() as int));
            }
            if self.rooms[i].0 == room_id {
                return Some(&self.rooms[i].1);
            }
            i += 1;
        }
        None
    }

    /// Registers the room `room_id` under `entry`, in place of an earlier
    /// entry of the same identifier if there is one. Every other room is
    /// found as before.
    pub fn insert(&mut self, room_id: u128, entry: RoomEntry<H>)
        ensures
            lookup(final(self).rooms@, room_id) == Some(entry),
            forall|other: u128|
                other != room_id ==> lookup(final(self).rooms@, other) == lookup(
                    old(self).rooms@,
                    other,
                ),
            final(self).rooms@.len() == old(self).rooms@.len() + if lookup(
                old(self).rooms@,
                room_id,
            ) is None {
                1int
            } else {
                0int
            },
    {
        let mut i: usize = 0;
        while i < self.rooms.len()
            invariant
                i <= self.rooms.len(),
                self.rooms@ == old(self).rooms@,
                forall|j: int| 0 <= j < i ==> self.rooms@[j].0 != room_id,
            decreases self.rooms.len() - i,
        {
            if self.rooms[i].0 == room_id {
                proof {
                    let before = self.rooms@;
                    lemma_lookup_after_update(before, i as int, room_id, entry, room_id);
                    assert forall|other: u128| other != room_id implies lookup(
                        before.update(i as int, (room_id, entry)),
                        other,
                    ) == lookup(before, other) by {
                        lemma_lookup_after_update(before, i as int, room_id, entry, other);
                    }
                }
                self.rooms.set(i, (room_id, entry));
                return ;
            }
            i += 1;
        }
        proof {
            let before = self.rooms@;
            lemma_lookup_after_push(before, room_id, entry, room_id);
            assert forall|other: u128| other != room_id implies lookup(
                before.push((room_id, entry)),
                other,
            ) == lookup(before, other) by {
                lemma_lookup_after_push(before, room_id, entry, other);
            }
        }
        self.rooms.push((room_id, entry));
    }
}

/// Replacing the first entry of `room_id` changes what is found under
/// `room_id` and nothing else.
proof fn lemma_lookup_after_update<H>(
    rooms: Seq<(u128, RoomEntry<H>)>,
    i: int,
    room_id: u128,
    entry: RoomEntry<H>,
    key: u128,
)
    requires
        0 <= i < rooms.len(),
        rooms[i].0 == room_id,
        forall|j: int| 0 <= j < i ==> rooms[j].0 != room_id,
    ensures
        lookup(rooms, room_id) is Some,
        lookup(rooms.update(i, (room_id, entry)), key) == if key == room_id {
            Some(entry)
        } else {
            lookup(rooms, key)
        },
    decreases rooms.len(),
{
    let updated = rooms.update(i, (room_id, entry));
    if i == 0 {
        assert(updated.drop_first() =~= rooms.drop_first());
    } else {
        let rest = rooms.drop_first();
        assert(rooms[0].0 != room_id);
        assert(rest[i - 1] == rooms[i]);
        assert forall|j: int| 0 <= j < i - 1 implies rest[j].0 != room_id by {
            assert(rest[j] == rooms[j + 1]);
        }
        lemma_lookup_after_update(rest, i - 1, room_id, entry, key);
        assert(updated.drop_first() =~= rest.update(i - 1, (room_id, entry)));
        assert(updated[0] == rooms[0]);
    }
}

/// Appending an entry for an identifier that has none changes what is found
/// under that identifier and nothing else.
proof fn lemma_lookup_after_push<H>(
    rooms: Seq<(u128, RoomEntry<H>)>,
    room_id: u128,
    entry: RoomEntry<H>,
    key: u128,
)
    requires
        forall|j: int| 0 <= j < rooms.len() ==> rooms[j].0 != room_id,
    ensures
        lookup(rooms, room_id) is None,
        lookup(rooms.push((room_id, entry)), key) == if key == room_id {
            Some(entry)
        } else {
            lookup(rooms, key)
        },
    decreases rooms.len(),
{
    let pushed = rooms.push((room_id, entry));
    if rooms.len() == 0 {
        assert(pushed.drop_first() =~= rooms);
        assert(pushed[0] == (room_id, entry));
    } else {
        let rest = rooms.drop_first();
        assert(rooms[0].0 != room_id);
        assert forall|j: int| 0 <= j < rest.len() implies rest[j].0 != room_id by {
            assert(rest[j] == rooms[j + 1]);
        }
        lemma_lookup_after_push(rest, room_id, entry, key);
        assert(pushed.drop_first() =~= rest.push((room_id, entry)));
        assert(pushed[0] == rooms[0]);
    }
}

} // verus!
