//! What holds of every room: the invariants of its state, and the laws that
//! relate its operations.

use crate::event::{DeliveryView, EventView};
use crate::matchmaking::{
    has_pairing, involves, is_busy, joins, keys, lemma_first_eligible_is_first,
    lemma_no_repeat_pairing, Pairing,
};
use crate::model::{
    addressed_to, differs_from, farewell_from, involving, not_involving, not_joining,
    other_member, other_than, to_each, MatchTimer, Operation, RoomView, UserEntry,
};
use vstd::prelude::*;

verus! {

/// No double-booking: no user is a member of two pairings of the list.
pub open spec fn exclusive(pairings: Seq<Pairing>) -> bool {
    forall|i: int, j: int, user: u128|
        #![trigger involves(pairings[i], user), involves(pairings[j], user)]
        0 <= i < j < pairings.len() && involves(pairings[i], user) ==> !involves(
            pairings[j],
            user,
        )
}

/// No pairing of the list joins a user with itself.
pub open spec fn without_self_pairing(pairings: Seq<Pairing>) -> bool {
    forall|i: int| 0 <= i < pairings.len() ==> (#[trigger] pairings[i]).0 != pairings[i].1
}

/// No two pairings of the list join the same two users.
pub open spec fn without_repeat(pairings: Seq<Pairing>) -> bool {
    forall|i: int, j: int|
        0 <= i < j < pairings.len() ==> !joins(
            #[trigger] pairings[j],
            (#[trigger] pairings[i]).0,
            pairings[i].1,
        )
}

impl RoomView {
    /// The invariant of a room's state: no session is listed twice; every
    /// live pairing joins two different connected users and stands in the
    /// history; the history repeats no pairing and pairs nobody with itself.
    pub open spec fn valid(self) -> bool {
        &&& keys(self.users).no_duplicates()
        &&& self.admins.no_duplicates()
        &&& forall|i: int|
            0 <= i < self.active.len() ==> {
                &&& self.is_user((#[trigger] self.active[i]).0)
                &&& self.is_user(self.active[i].1)
                &&& has_pairing(self.history, self.active[i].0, self.active[i].1)
            }
        &&& without_self_pairing(self.active)
        &&& without_self_pairing(self.history)
        &&& without_repeat(self.history)
    }

    /// Whether the join of the user `id` under `name` would pair a user who
    /// is still in a live pairing: `id` joins again while it is paired, and
    /// the engine finds it a further peer.
    pub open spec fn pairs_again_while_paired(self, id: u128, name: Seq<char>) -> bool {
        is_busy(self.active, id) && self.seated(id, name).proposal(id) is Some
    }
}

// ----- filtering keeps order -----

/// The position in `s` of the element that `s.filter(keep)` holds at `i`.
spec fn origin<A>(s: Seq<A>, keep: spec_fn(A) -> bool, i: int) -> int
    decreases s.len(),
{
    if s.len() == 0 {
        0
    } else if keep(s.last()) && i == s.drop_last().filter(keep).len() {
        s.len() - 1
    } else {
        origin(s.drop_last(), keep, i)
    }
}

/// Filtering selects elements without reordering them.
proof fn lemma_filter_origin<A>(s: Seq<A>, keep: spec_fn(A) -> bool)
    ensures
        forall|i: int|
            0 <= i < s.filter(keep).len() ==> {
                &&& 0 <= #[trigger] origin(s, keep, i) < s.len()
                &&& s.filter(keep)[i] == s[origin(s, keep, i)]
                &&& keep(s[origin(s, keep, i)])
            },
        forall|i: int, j: int|
            0 <= i < j < s.filter(keep).len() ==> #[trigger] origin(s, keep, i) < #[trigger] origin(
                s,
                keep,
                j,
            ),
        forall|k: int|
            0 <= k < s.len() && keep(#[trigger] s[k]) ==> exists|i: int|
                0 <= i < s.filter(keep).len() && #[trigger] origin(s, keep, i) == k,
    decreases s.len(),
{
    reveal(Seq::filter);
    if s.len() > 0 {
        let front = s.drop_last();
        lemma_filter_origin(front, keep);
        let kept = front.filter(keep);
        assert(keep(s.last()) ==> s.filter(keep).len() == kept.len() + 1);
        assert(!keep(s.last()) ==> s.filter(keep).len() == kept.len());
        assert forall|i: int| 0 <= i < s.filter(keep).len() implies {
            &&& 0 <= #[trigger] origin(s, keep, i) < s.len()
            &&& s.filter(keep)[i] == s[origin(s, keep, i)]
            &&& keep(s[origin(s, keep, i)])
        } by {
            if keep(s.last()) && i == kept.len() {
            } else {
                assert(0 <= i < kept.len());
                let o = origin(front, keep, i);
                assert(origin(s, keep, i) == o);
                assert(0 <= o < front.len());
                assert(front[o] == s[o]);
                assert(s.filter(keep)[i] == kept[i]);
            }
        }
        assert forall|i: int, j: int| 0 <= i < j < s.filter(keep).len() implies #[trigger] origin(
            s,
            keep,
            i,
        ) < #[trigger] origin(s, keep, j) by {
            assert(0 <= i < kept.len());
            let oi = origin(front, keep, i);
            assert(origin(s, keep, i) == oi);
            assert(0 <= oi < front.len());
            if keep(s.last()) && j == kept.len() {
            } else {
                assert(0 <= j < kept.len());
                let oj = origin(front, keep, j);
                assert(origin(s, keep, j) == oj);
                assert(oi < oj);
            }
        }
        assert forall|k: int| 0 <= k < s.len() && keep(#[trigger] s[k]) implies exists|i: int|
            0 <= i < s.filter(keep).len() && #[trigger] origin(s, keep, i) == k by {
            if k == s.len() - 1 {
                assert(origin(s, keep, kept.len() as int) == k);
            } else {
                assert(keep(front[k]));
                let i = choose|i: int| 0 <= i < kept.len() && #[trigger] origin(front, keep, i) == k;
                assert(origin(s, keep, i) == k);
            }
        }
    }
}

/// Filtering an exclusive list of pairings leaves it exclusive.
proof fn lemma_filter_keeps_exclusive(pairings: Seq<Pairing>, keep: spec_fn(Pairing) -> bool)
    requires
        exclusive(pairings),
    ensures
        exclusive(pairings.filter(keep)),
{
    lemma_filter_origin(pairings, keep);
    let kept = pairings.filter(keep);
    assert forall|i: int, j: int, user: u128|
        #![trigger involves(kept[i], user), involves(kept[j], user)]
        0 <= i < j < kept.len() && involves(kept[i], user) implies !involves(kept[j], user) by {
        let oi = origin(pairings, keep, i);
        let oj = origin(pairings, keep, j);
        assert(involves(pairings[oi], user));
        assert(!involves(pairings[oj], user));
    }
}

/// Filtering a list without duplicates leaves it without duplicates.
proof fn lemma_filter_keeps_distinct<A>(s: Seq<A>, keep: spec_fn(A) -> bool)
    requires
        s.no_duplicates(),
    ensures
        s.filter(keep).no_duplicates(),
{
    lemma_filter_origin(s, keep);
    let kept = s.filter(keep);
    assert forall|i: int, j: int| 0 <= i < kept.len() && 0 <= j < kept.len() && i != j implies kept[i]
        != kept[j] by {
        let oi = origin(s, keep, i);
        let oj = origin(s, keep, j);
        if i < j {
            assert(oi < oj);
        } else {
            assert(oj < oi);
        }
    }
}

/// The identifiers that remain listed once the entry of `id` is filtered
/// out: every other identifier stays, and none is listed twice.
proof fn lemma_users_without(users: Seq<UserEntry>, id: u128)
    requires
        keys(users).no_duplicates(),
    ensures
        keys(users.filter(other_than(id))).no_duplicates(),
        forall|user: u128|
            user != id && keys(users).contains(user) ==> #[trigger] keys(
                users.filter(other_than(id)),
            ).contains(user),
{
    lemma_filter_origin(users, other_than(id));
    let kept = users.filter(other_than(id));
    assert forall|i: int, j: int|
        0 <= i < keys(kept).len() && 0 <= j < keys(kept).len() && i != j implies keys(kept)[i]
        != keys(kept)[j] by {
        let oi = origin(users, other_than(id), i);
        let oj = origin(users, other_than(id), j);
        if i < j {
            assert(oi < oj);
        } else {
            assert(oj < oi);
        }
        assert(keys(kept)[i] == keys(users)[oi]);
        assert(keys(kept)[j] == keys(users)[oj]);
    }
    assert forall|user: u128| user != id && keys(users).contains(user) implies #[trigger] keys(
        kept,
    ).contains(user) by {
        let k = choose|k: int| 0 <= k < keys(users).len() && keys(users)[k] == user;
        assert(other_than(id)(users[k]));
        let i = choose|i: int|
            0 <= i < kept.len() && #[trigger] origin(users, other_than(id), i) == k;
        assert(keys(kept)[i] == user);
    }
}

// ----- the invariant -----

/// A room starts out valid and without any pairing.
pub proof fn lemma_empty_room_is_valid(match_duration: u64)
    ensures
        RoomView::empty(match_duration).valid(),
        exclusive(RoomView::empty(match_duration).active),
{
    assert(keys(RoomView::empty(match_duration).users) =~= Seq::<u128>::empty());
}

/// The join of an admin keeps a room valid and leaves its pairings and its
/// history alone.
pub proof fn lemma_join_admin_keeps_valid(pre: RoomView, id: u128)
    requires
        pre.valid(),
    ensures
        pre.join_admin(id).valid(),
        pre.join_admin(id).active == pre.active,
        pre.join_admin(id).history == pre.history,
{
}

/// Seating a user keeps a room valid, lists the user, and keeps everyone
/// else listed.
proof fn lemma_seated_keeps_valid(pre: RoomView, id: u128, name: Seq<char>)
    requires
        pre.valid(),
    ensures
        pre.seated(id, name).valid(),
        pre.seated(id, name).is_user(id),
        forall|user: u128| pre.is_user(user) ==> pre.seated(id, name).is_user(user),
{
    let post = pre.seated(id, name);
    if pre.is_user(id) {
        assert(keys(post.users) =~= keys(pre.users));
    } else {
        assert(keys(post.users) =~= keys(pre.users).push(id));
        assert(keys(post.users)[pre.users.len() as int] == id);
        assert forall|user: u128| pre.is_user(user) implies post.is_user(user) by {
            let k = choose|k: int| 0 <= k < keys(pre.users).len() && keys(pre.users)[k] == user;
            assert(keys(post.users)[k] == user);
        }
    }
}

/// Running the engine for a connected user keeps a room valid. Unless the
/// user is in a live pairing and is proposed a further one, nobody ends up in
/// two live pairings.
proof fn lemma_matched_keeps_valid(pre: RoomView, id: u128)
    requires
        pre.valid(),
        pre.is_user(id),
    ensures
        pre.matched(id).valid(),
        exclusive(pre.active) && !(is_busy(pre.active, id) && pre.proposal(id) is Some)
            ==> exclusive(pre.matched(id).active),
{
    lemma_first_eligible_is_first(id, keys(pre.users), pre.active, pre.history);
    let post = pre.matched(id);
    match pre.proposal(id) {
        Some(pairing) => {
            let last = pre.history.len() as int;
            assert(post.history[last] == pairing);
            assert(joins(post.history[last], pairing.0, pairing.1));
            assert forall|i: int| 0 <= i < post.active.len() implies {
                &&& post.is_user((#[trigger] post.active[i]).0)
                &&& post.is_user(post.active[i].1)
                &&& has_pairing(post.history, post.active[i].0, post.active[i].1)
            } by {
                if i < pre.active.len() {
                    let k = choose|k: int|
                        0 <= k < pre.history.len() && joins(
                            #[trigger] pre.history[k],
                            pre.active[i].0,
                            pre.active[i].1,
                        );
                    assert(joins(post.history[k], pre.active[i].0, pre.active[i].1));
                }
            }
            assert forall|i: int, j: int| 0 <= i < j < post.history.len() implies !joins(
                #[trigger] post.history[j],
                (#[trigger] post.history[i]).0,
                post.history[i].1,
            ) by {
                if j == last {
                    assert(!joins(pre.history[i], id, pairing.1));
                }
            }
            if exclusive(pre.active) && !is_busy(pre.active, id) {
                assert forall|i: int, j: int, user: u128|
                    #![trigger involves(post.active[i], user), involves(post.active[j], user)]
                    0 <= i < j < post.active.len() && involves(
                        post.active[i],
                        user,
                    ) implies !involves(post.active[j], user) by {
                    if j == pre.active.len() {
                        assert(involves(pre.active[i], user));
                    } else {
                        assert(involves(pre.active[i], user));
                        assert(!involves(pre.active[j], user));
                    }
                }
            }
        },
        None => {},
    }
}

/// The join of a user keeps a room valid. The history is extended, never
/// shortened. Where nobody was double-booked before, nobody is double-booked
/// after, unless the one who joins is in a live pairing and is paired again.
pub proof fn lemma_join_user_keeps_valid(pre: RoomView, id: u128, name: Seq<char>)
    requires
        pre.valid(),
    ensures
        pre.join_user(id, name).valid(),
        pre.history.is_prefix_of(pre.join_user(id, name).history),
        exclusive(pre.active) && !pre.pairs_again_while_paired(id, name) ==> exclusive(
            pre.join_user(id, name).active,
        ),
{
    lemma_seated_keeps_valid(pre, id, name);
    lemma_matched_keeps_valid(pre.seated(id, name), id);
}

/// A leave keeps a room valid, leaves the history alone, and never
/// double-books anyone.
pub proof fn lemma_leave_keeps_valid(pre: RoomView, id: u128)
    requires
        pre.valid(),
    ensures
        pre.leave(id).valid(),
        pre.leave(id).history == pre.history,
        exclusive(pre.active) ==> exclusive(pre.leave(id).active),
{
    let post = pre.leave(id);
    if pre.is_user(id) {
        lemma_users_without(pre.users, id);
        lemma_filter_origin(pre.active, not_involving(id));
        assert forall|i: int| 0 <= i < post.active.len() implies {
            &&& post.is_user((#[trigger] post.active[i]).0)
            &&& post.is_user(post.active[i].1)
            &&& has_pairing(post.history, post.active[i].0, post.active[i].1)
        } by {
            let o = origin(pre.active, not_involving(id), i);
            assert(post.active[i] == pre.active[o]);
            assert(pre.is_user(pre.active[o].0));
        }
        assert forall|i: int| 0 <= i < post.active.len() implies (#[trigger] post.active[i]).0
            != post.active[i].1 by {
            let o = origin(pre.active, not_involving(id), i);
            assert(post.active[i] == pre.active[o]);
        }
        if exclusive(pre.active) {
            lemma_filter_keeps_exclusive(pre.active, not_involving(id));
        }
    } else if pre.is_admin(id) {
        lemma_filter_keeps_distinct(pre.admins, differs_from(id));
    }
}

/// The firing of a match timer keeps a room valid, leaves the history alone,
/// and never double-books anyone.
pub proof fn lemma_expire_keeps_valid(pre: RoomView, pairing: Pairing)
    requires
        pre.valid(),
    ensures
        pre.expire(pairing).valid(),
        pre.expire(pairing).history == pre.history,
        exclusive(pre.active) ==> exclusive(pre.expire(pairing).active),
{
    let post = pre.expire(pairing);
    if has_pairing(pre.active, pairing.0, pairing.1) {
        let keep = not_joining(pairing.0, pairing.1);
        lemma_filter_origin(pre.active, keep);
        assert forall|i: int| 0 <= i < post.active.len() implies {
            &&& post.is_user((#[trigger] post.active[i]).0)
            &&& post.is_user(post.active[i].1)
            &&& has_pairing(post.history, post.active[i].0, post.active[i].1)
        } by {
            let o = origin(pre.active, keep, i);
            assert(post.active[i] == pre.active[o]);
            assert(pre.is_user(pre.active[o].0));
        }
        assert forall|i: int| 0 <= i < post.active.len() implies (#[trigger] post.active[i]).0
            != post.active[i].1 by {
            let o = origin(pre.active, keep, i);
            assert(post.active[i] == pre.active[o]);
        }
        if exclusive(pre.active) {
            lemma_filter_keeps_exclusive(pre.active, keep);
        }
    }
}

// ----- filtering by a predicate that holds of all, of none, or of all but one -----

proof fn lemma_filter_keeps_all<A>(s: Seq<A>, keep: spec_fn(A) -> bool)
    requires
        forall|i: int| 0 <= i < s.len() ==> keep(#[trigger] s[i]),
    ensures
        s.filter(keep) == s,
    decreases s.len(),
{
    reveal(Seq::filter);
    if s.len() > 0 {
        let front = s.drop_last();
        assert forall|i: int| 0 <= i < front.len() implies keep(#[trigger] front[i]) by {
            assert(front[i] == s[i]);
        }
        lemma_filter_keeps_all(front, keep);
        assert(front.push(s.last()) =~= s);
    }
}

proof fn lemma_filter_keeps_none<A>(s: Seq<A>, keep: spec_fn(A) -> bool)
    requires
        forall|i: int| 0 <= i < s.len() ==> !keep(#[trigger] s[i]),
    ensures
        s.filter(keep) == Seq::<A>::empty(),
    decreases s.len(),
{
    reveal(Seq::filter);
    if s.len() > 0 {
        let front = s.drop_last();
        assert forall|i: int| 0 <= i < front.len() implies !keep(#[trigger] front[i]) by {
            assert(front[i] == s[i]);
        }
        lemma_filter_keeps_none(front, keep);
    }
}

proof fn lemma_filter_drops_one<A>(s: Seq<A>, keep: spec_fn(A) -> bool, k: int)
    requires
        0 <= k < s.len(),
        forall|i: int| 0 <= i < s.len() ==> (keep(#[trigger] s[i]) <==> i != k),
    ensures
        s.filter(keep) == s.remove(k),
    decreases s.len(),
{
    reveal(Seq::filter);
    let front = s.drop_last();
    if k == s.len() - 1 {
        assert forall|i: int| 0 <= i < front.len() implies keep(#[trigger] front[i]) by {
            assert(front[i] == s[i]);
        }
        lemma_filter_keeps_all(front, keep);
        assert(front =~= s.remove(k));
    } else {
        assert forall|i: int| 0 <= i < front.len() implies (keep(#[trigger] front[i]) <==> i
            != k) by {
            assert(front[i] == s[i]);
        }
        lemma_filter_drops_one(front, keep, k);
        assert(front.remove(k).push(s.last()) =~= s.remove(k));
    }
}

proof fn lemma_filter_keeps_one<A>(s: Seq<A>, keep: spec_fn(A) -> bool, k: int)
    requires
        0 <= k < s.len(),
        forall|i: int| 0 <= i < s.len() ==> (keep(#[trigger] s[i]) <==> i == k),
    ensures
        s.filter(keep) == seq![s[k]],
    decreases s.len(),
{
    reveal(Seq::filter);
    let front = s.drop_last();
    if k == s.len() - 1 {
        assert forall|i: int| 0 <= i < front.len() implies !keep(#[trigger] front[i]) by {
            assert(front[i] == s[i]);
        }
        lemma_filter_keeps_none(front, keep);
        assert(Seq::<A>::empty().push(s.last()) =~= seq![s[k]]);
    } else {
        assert forall|i: int| 0 <= i < front.len() implies (keep(#[trigger] front[i]) <==> i
            == k) by {
            assert(front[i] == s[i]);
        }
        lemma_filter_keeps_one(front, keep, k);
    }
}

// ----- leaving -----

/// A disconnect dissolves only the pairing of the one who leaves. Where
/// nobody is double-booked and `a` is paired with `b`, the leave of `a` takes
/// exactly that pairing out of the live pairings and keeps all others, in
/// their order; and `b`, unless it is also listed as an admin, is sent one
/// event and no more: that `a` has left.
pub proof fn lemma_disconnect_dissolves_only_own_pairing(pre: RoomView, a: u128, b: u128, k: int)
    requires
        pre.valid(),
        exclusive(pre.active),
        0 <= k < pre.active.len(),
        joins(pre.active[k], a, b),
    ensures
        pre.leave(a).active == pre.active.remove(k),
        !pre.is_admin(b) ==> pre.leave_deliveries(a).filter(addressed_to(b)) == seq![
            DeliveryView { to: b, event: EventView::UserLeft { id: a } },
        ],
{
    let live = pre.active;
    assert(involves(live[k], a));
    assert(pre.is_user(a));
    assert forall|i: int| 0 <= i < live.len() implies (involves(#[trigger] live[i], a) <==> i
        == k) by {
        if i < k {
            if involves(live[i], a) {
                assert(!involves(live[k], a));
            }
        } else if k < i {
            assert(!involves(live[i], a));
        }
    }
    lemma_filter_drops_one(live, not_involving(a), k);
    lemma_filter_keeps_one(live, involving(a), k);
    if !pre.is_admin(b) {
        let told = live.filter(involving(a)).map_values(farewell_from(a));
        let snapshots = to_each(pre.admins, pre.leave(a).snapshot());
        let notices = to_each(pre.admins, EventView::UserLeft { id: a });
        let farewell = DeliveryView { to: b, event: EventView::UserLeft { id: a } };
        assert(other_member(live[k], a) == b);
        assert(told =~= seq![farewell]);
        lemma_filter_keeps_all(told, addressed_to(b));
        lemma_filter_keeps_none(snapshots, addressed_to(b));
        lemma_filter_keeps_none(notices, addressed_to(b));
        Seq::filter_distributes_over_add(told, snapshots, addressed_to(b));
        Seq::filter_distributes_over_add(told + snapshots, notices, addressed_to(b));
        assert(seq![farewell] + Seq::<DeliveryView>::empty() + Seq::<DeliveryView>::empty()
            =~= seq![farewell]);
    }
}

/// Once a user has left, it is in no live pairing.
pub proof fn lemma_leave_frees_user(pre: RoomView, id: u128)
    requires
        pre.is_user(id),
    ensures
        !is_busy(pre.leave(id).active, id),
{
    lemma_filter_origin(pre.active, not_involving(id));
}

// ----- match expiry -----

/// Once the timer of a pairing has fired, the pairing is live no more.
pub proof fn lemma_expired_pairing_is_gone(pre: RoomView, pairing: Pairing)
    ensures
        !has_pairing(pre.expire(pairing).active, pairing.0, pairing.1),
{
    lemma_filter_origin(pre.active, not_joining(pairing.0, pairing.1));
}

/// Match expiry is idempotent. A timer that fires for a pairing that is not
/// live, be it that a member has left or that the timer had fired before,
/// changes nothing and sends nothing.
pub proof fn lemma_expiry_is_idempotent(pre: RoomView, pairing: Pairing, leaver: u128)
    ensures
        !has_pairing(pre.active, pairing.0, pairing.1) ==> pre.expire(pairing) == pre
            && pre.expire_deliveries(pairing) == Seq::<DeliveryView>::empty(),
        pre.expire(pairing).expire(pairing) == pre.expire(pairing),
        pre.expire(pairing).expire_deliveries(pairing) == Seq::<DeliveryView>::empty(),
        pre.is_user(leaver) && involves(pairing, leaver) ==> pre.leave(leaver).expire(pairing)
            == pre.leave(leaver) && pre.leave(leaver).expire_deliveries(pairing) == Seq::<
            DeliveryView,
        >::empty(),
{
    lemma_expired_pairing_is_gone(pre, pairing);
    if pre.is_user(leaver) && involves(pairing, leaver) {
        lemma_leave_frees_user(pre, leaver);
        let left = pre.leave(leaver).active;
        if has_pairing(left, pairing.0, pairing.1) {
            let i = choose|i: int|
                0 <= i < left.len() && joins(#[trigger] left[i], pairing.0, pairing.1);
            assert(involves(left[i], leaver));
        }
    }
}

// ----- relaying -----

/// What is relayed is a signaling event that carries the identifier of the
/// session that handed it in, whatever address the envelope held, and it goes
/// to the connected session that the envelope addressed. Nothing but a
/// signaling event is ever relayed.
pub proof fn lemma_relay_names_the_sender(room: RoomView, from: u128, envelope: Option<EventView>)
    ensures
        match room.relay(from, envelope) {
            Some(delivery) => {
                &&& room.is_connected(delivery.to)
                &&& match delivery.event {
                    EventView::ICECandidate { id, description } => id == from && envelope == Some(
                        EventView::ICECandidate { id: delivery.to, description },
                    ),
                    EventView::RTCConnectionOffer { id, description } => id == from && envelope
                        == Some(EventView::RTCConnectionOffer { id: delivery.to, description }),
                    EventView::RTCConnectionAnswer { id, description } => id == from && envelope
                        == Some(EventView::RTCConnectionAnswer { id: delivery.to, description }),
                    _ => false,
                }
            },
            None => true,
        },
{
}

// ----- delivery -----

/// Nothing is sent into the void: every event that an operation of a valid
/// room emits is addressed to a session that is connected once the operation
/// is done.
pub proof fn lemma_every_delivery_has_a_recipient(pre: RoomView, operation: Operation)
    requires
        pre.valid(),
    ensures
        forall|i: int|
            0 <= i < pre.emitted(operation).len() ==> pre.step(operation).is_connected(
                (#[trigger] pre.emitted(operation)[i]).to,
            ),
{
    let post = pre.step(operation);
    let sent = pre.emitted(operation);
    match operation {
        Operation::JoinAdmin { id } => {
            assert(post.admins.contains(id)) by {
                if !pre.admins.contains(id) {
                    assert(post.admins[pre.admins.len() as int] == id);
                }
            }
            assert forall|i: int| 0 <= i < sent.len() implies post.is_connected(
                (#[trigger] sent[i]).to,
            ) by {
                if i >= pre.users.len() {
                    assert(sent[i].to == post.admins[i - pre.users.len()]);
                }
            }
        },
        Operation::JoinUser { id, name } => {
            lemma_seated_keeps_valid(pre, id, name);
            let seated = pre.seated(id, name);
            lemma_first_eligible_is_first(id, keys(seated.users), seated.active, seated.history);
            let greeted = 1 + pre.admins.len();
            assert forall|i: int| 0 <= i < sent.len() implies post.is_connected(
                (#[trigger] sent[i]).to,
            ) by {
                if i == 0 {
                } else if i < greeted {
                    assert(sent[i].to == pre.admins[i - 1]);
                } else if i == greeted {
                } else if i == greeted + 1 {
                } else {
                    assert(sent[i].to == pre.admins[i - greeted - 2]);
                }
            }
        },
        Operation::Leave { id } => {
            if pre.is_user(id) {
                let told = pre.active.filter(involving(id));
                lemma_filter_origin(pre.active, involving(id));
                lemma_users_without(pre.users, id);
                assert forall|i: int| 0 <= i < sent.len() implies post.is_connected(
                    (#[trigger] sent[i]).to,
                ) by {
                    if i < told.len() {
                        let o = origin(pre.active, involving(id), i);
                        assert(told[i] == pre.active[o]);
                        assert(sent[i].to == other_member(pre.active[o], id));
                        assert(pre.is_user(pre.active[o].0));
                    } else if i < told.len() + pre.admins.len() {
                        assert(sent[i].to == pre.admins[i - told.len()]);
                    } else {
                        assert(sent[i].to == pre.admins[i - told.len() - pre.admins.len()]);
                    }
                }
            }
        },
        Operation::Expire { pairing } => {
            if has_pairing(pre.active, pairing.0, pairing.1) {
                let k = choose|k: int|
                    0 <= k < pre.active.len() && joins(
                        #[trigger] pre.active[k],
                        pairing.0,
                        pairing.1,
                    );
                assert(pre.is_user(pre.active[k].0));
                assert forall|i: int| 0 <= i < sent.len() implies post.is_connected(
                    (#[trigger] sent[i]).to,
                ) by {
                    if i >= 2 {
                        assert(sent[i].to == pre.admins[i - 2]);
                    }
                }
            }
        },
    }
}

// ----- the lifetime of a room -----

/// Whether, in the course of `operations`, no user who is still in a live
/// pairing joins again and is paired again.
pub open spec fn nobody_pairs_again_while_paired(
    start: RoomView,
    operations: Seq<Operation>,
) -> bool
    decreases operations.len(),
{
    if operations.len() == 0 {
        true
    } else {
        &&& nobody_pairs_again_while_paired(start, operations.drop_last())
        &&& match operations.last() {
            Operation::JoinUser { id, name } => !start.after(
                operations.drop_last(),
            ).pairs_again_while_paired(id, name),
            _ => true,
        }
    }
}

/// A user who joins under an identifier that is not connected is in no live
/// pairing, so its join double-books nobody.
pub proof fn lemma_new_identifier_is_free(pre: RoomView, id: u128, name: Seq<char>)
    requires
        pre.valid(),
        !pre.is_user(id),
    ensures
        !is_busy(pre.active, id),
        !pre.pairs_again_while_paired(id, name),
{
}

/// A valid room stays valid whatever operations it goes through.
pub proof fn lemma_always_valid(start: RoomView, operations: Seq<Operation>)
    requires
        start.valid(),
    ensures
        start.after(operations).valid(),
    decreases operations.len(),
{
    if operations.len() > 0 {
        lemma_always_valid(start, operations.drop_last());
        let pre = start.after(operations.drop_last());
        match operations.last() {
            Operation::JoinAdmin { id } => lemma_join_admin_keeps_valid(pre, id),
            Operation::JoinUser { id, name } => lemma_join_user_keeps_valid(pre, id, name),
            Operation::Leave { id } => lemma_leave_keeps_valid(pre, id),
            Operation::Expire { pairing } => lemma_expire_keeps_valid(pre, pairing),
        }
    }
}

/// No double-booking, at any time: through any course of operations, no user
/// is ever a member of two live pairings, unless a user who is still in a
/// live pairing joins again under its identifier and is paired again.
pub proof fn lemma_never_double_booked(start: RoomView, operations: Seq<Operation>)
    requires
        start.valid(),
        exclusive(start.active),
        nobody_pairs_again_while_paired(start, operations),
    ensures
        exclusive(start.after(operations).active),
    decreases operations.len(),
{
    if operations.len() > 0 {
        lemma_always_valid(start, operations.drop_last());
        lemma_never_double_booked(start, operations.drop_last());
        let pre = start.after(operations.drop_last());
        match operations.last() {
            Operation::JoinAdmin { id } => lemma_join_admin_keeps_valid(pre, id),
            Operation::JoinUser { id, name } => lemma_join_user_keeps_valid(pre, id, name),
            Operation::Leave { id } => lemma_leave_keeps_valid(pre, id),
            Operation::Expire { pairing } => lemma_expire_keeps_valid(pre, pairing),
        }
    }
}

/// The history is append-only: whatever operations a room goes through, what
/// stood in its history stands there still.
pub proof fn lemma_history_only_grows(start: RoomView, operations: Seq<Operation>)
    ensures
        start.history.is_prefix_of(start.after(operations).history),
    decreases operations.len(),
{
    if operations.len() > 0 {
        lemma_history_only_grows(start, operations.drop_last());
    }
}

/// No repeat pairing, for the lifetime of the room: once `a` and `b` stand
/// together in the history, in either orientation, then after any course of
/// operations the engine proposes neither `b` to `a` nor `a` to `b`, whether
/// it is asked as the room stands or on the join of either under any name.
pub proof fn lemma_never_paired_again(
    start: RoomView,
    operations: Seq<Operation>,
    a: u128,
    b: u128,
    name: Seq<char>,
)
    requires
        has_pairing(start.history, a, b),
    ensures
        start.after(operations).proposal(a) != Some((a, b)),
        start.after(operations).proposal(b) != Some((b, a)),
        start.after(operations).seated(a, name).proposal(a) != Some((a, b)),
        start.after(operations).seated(b, name).proposal(b) != Some((b, a)),
        start.after(operations).join_user_timer(a, name) != Some(
            MatchTimer { pairing: (a, b), seconds: start.after(operations).match_duration },
        ),
{
    lemma_history_only_grows(start, operations);
    let later = start.after(operations);
    let i = choose|i: int| 0 <= i < start.history.len() && joins(#[trigger] start.history[i], a, b);
    assert(later.history[i] == start.history[i]);
    lemma_no_repeat_pairing(a, b, keys(later.users), later.active, later.history);
    lemma_no_repeat_pairing(
        a,
        b,
        keys(later.seated(a, name).users),
        later.active,
        later.history,
    );
    lemma_no_repeat_pairing(
        a,
        b,
        keys(later.seated(b, name).users),
        later.active,
        later.history,
    );
}

} // verus!
