use titanlift::social::FollowStats;
use titanlift::social::SearchUserQuery;
use titanlift::social::UpdateSocialProfileRequest;
use titanlift::social::UserRecord;
use titanlift::social::search_match;
use titanlift::social::search_users;

fn user(user_id: u128, name: &str) -> UserRecord {
    UserRecord { user_id, username: String::from(name) }
}

#[test]
fn search_matches_substring_case_insensitively() {
    let q = SearchUserQuery { q: String::from("ann") };
    assert!(search_match(&q, 99, &user(1, "Anna")));
    assert!(search_match(&q, 99, &user(2, "joHANNes")));
    assert!(!search_match(&q, 99, &user(3, "bob")));
}

#[test]
fn search_never_returns_the_caller() {
    let q = SearchUserQuery { q: String::from("ann") };
    assert!(!search_match(&q, 1, &user(1, "Anna")));
    let users = vec![user(1, "Anna"), user(2, "Annette")];
    let found = search_users(&q, 1, &users);
    assert_eq!(found, vec![1]);
}

#[test]
fn empty_query_matches_everyone_else() {
    let q = SearchUserQuery { q: String::new() };
    let users = vec![user(1, "Anna"), user(2, "Bob")];
    let found = search_users(&q, 2, &users);
    assert_eq!(found, vec![0]);
}

#[test]
fn search_returns_at_most_ten_positions_in_order() {
    let q = SearchUserQuery { q: String::from("lifter") };
    let mut users = Vec::new();
    for u in 0..15u128 {
        users.push(user(u, &format!("Lifter{}", u)));
    }
    let found = search_users(&q, 999, &users);
    assert_eq!(found, (0..10).collect::<Vec<usize>>());
}

#[test]
fn social_profile_update_carries_optional_fields() {
    let u = UpdateSocialProfileRequest {
        bio: Some(String::from("lifting heavy things")),
        instagram: None,
        twitter: Some(String::from("@lifter")),
    };
    assert_eq!(u.bio.as_deref(), Some("lifting heavy things"));
    assert_eq!(u.instagram, None);
    assert_eq!(u.twitter.as_deref(), Some("@lifter"));
}

#[test]
fn follow_stats_hold_their_counts() {
    let s = FollowStats { followers: 10, following: 3 };
    assert_eq!(s.followers, 10);
    assert_eq!(s.following, 3);
}
