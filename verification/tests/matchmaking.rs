use matchroom::matchmaking::{calculate_next_match, holds_pairing, is_member_of_any};
use uuid::Uuid;

fn id(text: &str) -> u128 {
    Uuid::parse_str(text).unwrap().as_u128()
}

#[test]
fn it_makes_matches_correctly() {
    let mut users: Vec<(u128, ())> = Vec::new();
    let active_list: Vec<(u128, u128)> = Vec::new();
    let exclude_list: Vec<(u128, u128)> = Vec::new();

    let user1_id = id("11111111-06c9-4f14-bf8b-fafce92d6396");
    let user2_id = id("22222222-06c9-4f14-bf8b-fafce92d6396");
    let user3_id = id("33333333-06c9-4f14-bf8b-fafce92d6396");
    users.push((user1_id, ()));
    users.push((user2_id, ()));

    // Whichever of the two is proposed first, the other must come next, and
    // after those two matches nobody is left.
    let mut i = 1;
    while i <= 100 {
        match calculate_next_match(&user3_id, &users, &active_list, &exclude_list) {
            Some((a, b)) if a == user3_id && b == user2_id => {
                let next_match = calculate_next_match(
                    &user3_id,
                    &users,
                    &active_list,
                    &vec![(user3_id, user2_id)],
                );

                assert_eq!(next_match, Some((user3_id, user1_id)));

                let next_match = calculate_next_match(
                    &user3_id,
                    &users,
                    &active_list,
                    &vec![(user3_id, user2_id), (user3_id, user1_id)],
                );

                assert_eq!(next_match, None);
            }
            Some((a, b)) if a == user3_id && b == user1_id => {
                let next_next_match = calculate_next_match(
                    &user3_id,
                    &users,
                    &active_list,
                    &vec![(user3_id, user1_id)],
                );

                assert_eq!(next_next_match, Some((user3_id, user2_id)));

                let next_match = calculate_next_match(
                    &user3_id,
                    &users,
                    &active_list,
                    &vec![(user3_id, user1_id), (user3_id, user2_id)],
                );

                assert_eq!(next_match, None);
            }
            Some((_, _)) => {
                panic!();
            }
            None => {
                panic!();
            }
        }

        i += 1;
    }
}

#[test]
fn identifiers_map_to_their_128_bits() {
    assert_eq!(
        id("11111111-06c9-4f14-bf8b-fafce92d6396"),
        0x1111111106c94f14bf8bfafce92d6396u128
    );
}

#[test]
fn first_listed_candidate_is_chosen() {
    let users: Vec<(u128, ())> = vec![(10, ()), (20, ()), (30, ())];
    assert_eq!(calculate_next_match(&99, &users, &vec![], &vec![]), Some((99, 10)));
    assert_eq!(calculate_next_match(&10, &users, &vec![], &vec![]), Some((10, 20)));
}

#[test]
fn nobody_is_paired_with_themselves() {
    let users: Vec<(u128, ())> = vec![(7, ())];
    assert_eq!(calculate_next_match(&7, &users, &vec![], &vec![]), None);
    let users: Vec<(u128, ())> = vec![(7, ()), (7, ()), (8, ())];
    assert_eq!(calculate_next_match(&7, &users, &vec![], &vec![]), Some((7, 8)));
}

#[test]
fn busy_candidates_are_passed_over() {
    let users: Vec<(u128, ())> = vec![(1, ()), (2, ()), (3, ()), (4, ())];
    let active = vec![(2, 1)];
    assert_eq!(calculate_next_match(&9, &users, &active, &vec![]), Some((9, 3)));
    let active = vec![(2, 1), (4, 3)];
    assert_eq!(calculate_next_match(&9, &users, &active, &vec![]), None);
}

#[test]
fn earlier_partners_are_passed_over_in_either_orientation() {
    let users: Vec<(u128, ())> = vec![(1, ()), (2, ()), (3, ())];
    assert_eq!(calculate_next_match(&9, &users, &vec![], &vec![(9, 1)]), Some((9, 2)));
    assert_eq!(calculate_next_match(&9, &users, &vec![], &vec![(1, 9)]), Some((9, 2)));
    assert_eq!(
        calculate_next_match(&9, &users, &vec![], &vec![(1, 9), (9, 2), (3, 9)]),
        None
    );
    // Pairs of other users do not count against the arrival.
    assert_eq!(calculate_next_match(&9, &users, &vec![], &vec![(1, 2)]), Some((9, 1)));
}

#[test]
fn no_candidates_no_match() {
    let users: Vec<(u128, ())> = Vec::new();
    assert_eq!(calculate_next_match(&1, &users, &vec![], &vec![]), None);
}

#[test]
fn selection_is_repeatable_and_ignores_the_order_of_recorded_pairings() {
    let users: Vec<(u128, ())> = vec![(1, ()), (2, ()), (3, ()), (4, ())];
    let first = calculate_next_match(&9, &users, &vec![(1, 5), (6, 2)], &vec![(9, 3), (4, 8)]);
    let again = calculate_next_match(&9, &users, &vec![(1, 5), (6, 2)], &vec![(9, 3), (4, 8)]);
    let shuffled = calculate_next_match(&9, &users, &vec![(2, 6), (5, 1)], &vec![(8, 4), (3, 9)]);
    assert_eq!(first, Some((9, 4)));
    assert_eq!(first, again);
    assert_eq!(first, shuffled);
}

#[test]
fn membership_tests_on_pairings() {
    let pairings = vec![(1u128, 2u128), (3, 4)];
    assert!(is_member_of_any(&pairings, 1));
    assert!(is_member_of_any(&pairings, 4));
    assert!(!is_member_of_any(&pairings, 5));
    assert!(holds_pairing(&pairings, 1, 2));
    assert!(holds_pairing(&pairings, 2, 1));
    assert!(!holds_pairing(&pairings, 1, 3));
    assert!(!holds_pairing(&vec![], 1, 2));
}
