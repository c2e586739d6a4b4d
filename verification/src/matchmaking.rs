//! The matchmaking engine: a pure decision procedure that picks a peer for a
//! newly joined user.
//!
//! Candidates are enumerated in the order in which they are listed, and the
//! first one that meets every condition of [`eligible`] is chosen. The result
//! is a function of the arguments alone.

use vstd::prelude::*;

verus! {

/// A pairing of two user identifiers. The order in which the two are stored
/// carries no meaning.
pub type Pairing = (u128, u128);

/// Whether `user` is one of the two members of `pairing`.
pub open spec fn involves(pairing: Pairing, user: u128) -> bool {
    pairing.0 == user || pairing.1 == user
}

/// Whether `pairing` joins `a` and `b`, in either orientation.
pub open spec fn joins(pairing: Pairing, a: u128, b: u128) -> bool {
    pairing == (a, b) || pairing == (b, a)
}

/// Whether `user` is a member of some pairing in `pairings`.
pub open spec fn is_busy(pairings: Seq<Pairing>, user: u128) -> bool {
    exists|i: int| 0 <= i < pairings.len() && involves(#[trigger] pairings[i], user)
}

/// Whether `pairings` holds a pairing of `a` with `b`, in either orientation.
pub open spec fn has_pairing(pairings: Seq<Pairing>, a: u128, b: u128) -> bool {
    exists|i: int| 0 <= i < pairings.len() && joins(#[trigger] pairings[i], a, b)
}

/// The three conditions a candidate must meet to be matched with `id`:
/// it is someone else, it is in no active pairing, and the two have never
/// been paired.
pub open spec fn eligible(
    id: u128,
    candidate: u128,
    active: Seq<Pairing>,
    history: Seq<Pairing>,
) -> bool {
    &&& candidate != id
    &&& !is_busy(active, candidate)
    &&& !has_pairing(history, id, candidate)
}

/// The first of `candidates`, in their order, that is eligible for `id`.
pub open spec fn first_eligible(
    id: u128,
    candidates: Seq<u128>,
    active: Seq<Pairing>,
    history: Seq<Pairing>,
) -> Option<u128>
    decreases candidates.len(),
{
    if candidates.len() == 0 {
        None
    } else if eligible(id, candidates[0], active, history) {
        Some(candidates[0])
    } else {
        first_eligible(id, candidates.drop_first(), active, history)
    }
}

/// The pairing the engine proposes for the new arrival `id`, if any: `id`
/// first, the chosen peer second.
pub open spec fn next_match(
    id: u128,
    candidates: Seq<u128>,
    active: Seq<Pairing>,
    history: Seq<Pairing>,
) -> Option<Pairing> {
    match first_eligible(id, candidates, active, history) {
        Some(peer) => Some((id, peer)),
        None => None,
    }
}

/// The engine's choice is the first eligible candidate in enumeration order:
/// it stands at some position, it is eligible, and nobody before it is. The
/// engine proposes nothing exactly when no candidate is eligible.
pub proof fn lemma_first_eligible_is_first(
    id: u128,
    candidates: Seq<u128>,
    active: Seq<Pairing>,
    history: Seq<Pairing>,
)
    ensures
        match first_eligible(id, candidates, active, history) {
            Some(peer) => exists|i: int|
                {
                    &&& 0 <= i < candidates.len()
                    &&& #[trigger] candidates[i] == peer
                    &&& eligible(id, peer, active, history)
                    &&& forall|j: int|
                        0 <= j < i ==> !eligible(id, #[trigger] candidates[j], active, history)
                },
            None => forall|i: int|
                0 <= i < candidates.len() ==> !eligible(
                    id,
                    #[trigger] candidates[i],
                    active,
                    history,
                ),
        },
    decreases candidates.len(),
{
    if candidates.len() > 0 && !eligible(id, candidates[0], active, history) {
        let rest = candidates.drop_first();
        lemma_first_eligible_is_first(id, rest, active, history);
        match first_eligible(id, rest, active, history) {
            Some(peer) => {
                let k = choose|k: int|
                    {
                        &&& 0 <= k < rest.len()
                        &&& #[trigger] rest[k] == peer
                        &&& eligible(id, peer, active, history)
                        &&& forall|j: int|
                            0 <= j < k ==> !eligible(id, #[trigger] rest[j], active, history)
                    };
                assert(candidates[k + 1] == peer);
                assert forall|j: int| 0 <= j < k + 1 implies !eligible(
                    id,
                    #[trigger] candidates[j],
                    active,
                    history,
                ) by {
                    if j > 0 {
                        assert(candidates[j] == rest[j - 1]);
                    }
                }
            },
            None => {
                assert forall|i: int| 0 <= i < candidates.len() implies !eligible(
                    id,
                    #[trigger] candidates[i],
                    active,
                    history,
                ) by {
                    if i > 0 {
                        assert(candidates[i] == rest[i - 1]);
                    }
                }
            },
        }
    }
}

/// No self-pairing: whatever the candidates, the active pairings and the
/// history are, the engine never proposes to pair a user with itself.
pub proof fn lemma_no_self_pairing(
    id: u128,
    candidates: Seq<u128>,
    active: Seq<Pairing>,
    history: Seq<Pairing>,
)
    ensures
        next_match(id, candidates, active, history) matches Some(pairing) ==> pairing.0 == id
            && pairing.1 != id,
{
    lemma_first_eligible_is_first(id, candidates, active, history);
}

/// The proposed peer is one of the candidates and belongs to no active
/// pairing.
pub proof fn lemma_peer_is_free_candidate(
    id: u128,
    candidates: Seq<u128>,
    active: Seq<Pairing>,
    history: Seq<Pairing>,
)
    ensures
        next_match(id, candidates, active, history) matches Some(pairing) ==> candidates.contains(
            pairing.1,
        ) && !is_busy(active, pairing.1),
{
    lemma_first_eligible_is_first(id, candidates, active, history);
}

/// No repeat pairing: once `a` and `b` stand together in the history, in
/// either orientation, the engine proposes neither `b` to `a` nor `a` to `b`.
pub proof fn lemma_no_repeat_pairing(
    a: u128,
    b: u128,
    candidates: Seq<u128>,
    active: Seq<Pairing>,
    history: Seq<Pairing>,
)
    requires
        has_pairing(history, a, b),
    ensures
        next_match(a, candidates, active, history) != Some((a, b)),
        next_match(b, candidates, active, history) != Some((b, a)),
{
    lemma_first_eligible_is_first(a, candidates, active, history);
    lemma_first_eligible_is_first(b, candidates, active, history);
    let i = choose|i: int| 0 <= i < history.len() && joins(#[trigger] history[i], a, b);
    assert(joins(history[i], b, a));
}

/// Deterministic selection: two evaluations for the same new arrival over the
/// same candidates agree whenever the two lists of active pairings occupy the
/// same users and the two histories hold the same unordered pairs. The order
/// and multiplicity of the recorded pairings play no part.
pub proof fn lemma_selection_is_deterministic(
    id: u128,
    candidates: Seq<u128>,
    active_a: Seq<Pairing>,
    history_a: Seq<Pairing>,
    active_b: Seq<Pairing>,
    history_b: Seq<Pairing>,
)
    requires
        forall|user: u128| is_busy(active_a, user) == is_busy(active_b, user),
        forall|x: u128, y: u128| has_pairing(history_a, x, y) == has_pairing(history_b, x, y),
    ensures
        next_match(id, candidates, active_a, history_a) == next_match(
            id,
            candidates,
            active_b,
            history_b,
        ),
    decreases candidates.len(),
{
    if candidates.len() > 0 {
        lemma_selection_is_deterministic(
            id,
            candidates.drop_first(),
            active_a,
            history_a,
            active_b,
            history_b,
        );
    }
}

/// The identifiers of a list of entries keyed by identifier, in their order.
pub open spec fn keys<T>(entries: Seq<(u128, T)>) -> Seq<u128> {
    entries.map_values(|entry: (u128, T)| entry.0)
}

/// Whether `user` is a member of some pairing in `pairings`.
pub fn is_member_of_any(pairings: &Vec<Pairing>, user: u128) -> (found: bool)
    ensures
        found == is_busy(pairings@, user),
{
    let mut i: usize = 0;
    while i < pairings.len()
        invariant
            i <= pairings.len(),
            forall|j: int| 0 <= j < i ==> !involves(#[trigger] pairings@[j], user),
        decreases pairings.len() - i,
    {
        let p = pairings[i];
        if p.0 == user || p.1 == user {
            return true;
        }
        i += 1;
    }
    false
}

/// Whether `pairings` holds a pairing of `a` with `b`, in either orientation.
pub fn holds_pairing(pairings: &Vec<Pairing>, a: u128, b: u128) -> (found: bool)
    ensures
        found == has_pairing(pairings@, a, b),
{
    let mut i: usize = 0;
    while i < pairings.len()
        invariant
            i <= pairings.len(),
            forall|j: int| 0 <= j < i ==> !joins(#[trigger] pairings@[j], a, b),
        decreases pairings.len() - i,
    {
        let p = pairings[i];
        if (p.0 == a && p.1 == b) || (p.0 == b && p.1 == a) {
            return true;
        }
        i += 1;
    }
    false
}

/// Picks the peer for the new arrival `id` among `ids_list`.
///
/// The entries of `ids_list` are visited in order. The first one whose
/// identifier differs from `id`, is in no pairing of `active_list`, and has
/// never been paired with `id` according to `exclude_list`, is returned
/// together with `id`. Without such an entry the result is `None`.
pub fn calculate_next_match<T>(
    id: &u128,
    ids_list: &Vec<(u128, T)>,
    active_list: &Vec<Pairing>,
    exclude_list: &Vec<Pairing>,
) -> (found: Option<Pairing>)
    ensures
        found == next_match(*id, keys(ids_list@), active_list@, exclude_list@),
        found matches Some(pairing) ==> {
            &&& pairing.0 == *id
            &&& pairing.1 != *id
            &&& keys(ids_list@).contains(pairing.1)
            &&& !is_busy(active_list@, pairing.1)
            &&& !has_pairing(exclude_list@, pairing.0, pairing.1)
        },
        found is None <==> forall|i: int|
            0 <= i < ids_list@.len() ==> !eligible(
                *id,
                #[trigger] keys(ids_list@)[i],
                active_list@,
                exclude_list@,
            ),
{
    let ghost candidates = keys(ids_list@);
    proof {
        lemma_first_eligible_is_first(*id, candidates, active_list@, exclude_list@);
    }
    assert(candidates.subrange(0, candidates.len() as int) == candidates);
    let mut i: usize = 0;
    while i < ids_list.len()
        invariant
            i <= ids_list.len(),
            candidates == keys(ids_list@),
            first_eligible(*id, candidates, active_list@, exclude_list@) == first_eligible(
                *id,
                candidates.subrange(i as int, candidates.len() as int),
                active_list@,
                exclude_list@,
            ),
        decreases ids_list.len() - i,
    {
        let candidate: u128 = ids_list[i].0;
        proof {
            let rest = candidates.subrange(i as int, candidates.len() as int);
            assert(rest[0] == candidate);
            assert(rest.drop_first() == candidates.subrange(i + 1, candidates.len() as int));
        }
        if candidate != *id && !is_member_of_any(active_list, candidate) && !holds_pairing(
            exclude_list,
            *id,
            candidate,
        ) {
            return Some((*id, candidate));
        }
        i += 1;
    }
    None
}

} // verus!
