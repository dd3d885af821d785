//! Social profile types and user search.
//!
//! The search takes the candidate users, matches usernames
//! case-insensitively against the query text the way the persistence
//! layer's `ILIKE '%q%'` does for ASCII text, excludes the caller, and
//! returns at most the first ten matches in their given order.  The
//! caller's identity is an explicit parameter; the library never assumes
//! one.

use vstd::prelude::*;

use crate::text::fold_contains;

verus! {

/// How many results a user search returns at most.
pub const SEARCH_RESULT_LIMIT: usize = 10;

/// Follower and following counts of a user.
#[derive(Clone, Copy, Debug, PartialEq, Eq, Structural)]
pub struct FollowStats {
    pub followers: i64,
    pub following: i64,
}

/// A social-profile update; absent fields clear nothing, they are simply
/// not part of the profile text this library reasons about.
pub struct UpdateSocialProfileRequest {
    pub bio: Option<String>,
    pub instagram: Option<String>,
    pub twitter: Option<String>,
}

/// A username search query.
pub struct SearchUserQuery {
    pub q: String,
}

/// A candidate user for the search: identity and username.
pub struct UserRecord {
    pub user_id: u128,
    pub username: String,
}

/// A user matches a search when it is not the caller and the query text
/// occurs in its username up to ASCII case.
pub open spec fn spec_search_match(
    caller_id: u128,
    query: Seq<char>,
    user_id: u128,
    username: Seq<char>,
) -> bool {
    user_id != caller_id && fold_contains(username, query)
}

/// Whether one user matches the search for the given caller.
pub fn search_match(query: &SearchUserQuery, caller_id: u128, user: &UserRecord) -> (r: bool)
    ensures
        r == spec_search_match(caller_id, query.q@, user.user_id, user.username@),
{
    user.user_id != caller_id && crate::text::contains_ignore_ascii_case(
        user.username.as_str(),
        query.q.as_str(),
    )
}

/// Searches the candidate users: the result holds the positions of the
/// first matches, in order, at most `SEARCH_RESULT_LIMIT` of them.  Every
/// matching candidate is either in the result or comes after a full
/// result's last entry.
pub fn search_users(query: &SearchUserQuery, caller_id: u128, users: &Vec<UserRecord>) -> (r: Vec<
    usize,
>)
    ensures
        r@.len() <= SEARCH_RESULT_LIMIT,
        forall|m: int|
            0 <= m < r@.len() ==> r@[m] < users@.len() && spec_search_match(
                caller_id,
                query.q@,
                users@[r@[m] as int].user_id,
                users@[r@[m] as int].username@,
            ),
        forall|m1: int, m2: int| 0 <= m1 < m2 < r@.len() ==> r@[m1] < r@[m2],
        forall|i: int|
            0 <= i < users@.len() && spec_search_match(
                caller_id,
                query.q@,
                users@[i].user_id,
                users@[i].username@,
            ) ==> r@.contains(i as usize) || (r@.len() == SEARCH_RESULT_LIMIT && i > r@[
                SEARCH_RESULT_LIMIT - 1
            ]),
{
    let mut r: Vec<usize> = Vec::new();
    let mut i: usize = 0;
    while i < users.len()
        invariant
            i <= users@.len(),
            r@.len() <= SEARCH_RESULT_LIMIT,
            forall|m: int|
                0 <= m < r@.len() ==> r@[m] < i && spec_search_match(
                    caller_id,
                    query.q@,
                    users@[r@[m] as int].user_id,
                    users@[r@[m] as int].username@,
                ),
            forall|m1: int, m2: int| 0 <= m1 < m2 < r@.len() ==> r@[m1] < r@[m2],
            forall|j: int|
                0 <= j < i && spec_search_match(
                    caller_id,
                    query.q@,
                    users@[j].user_id,
                    users@[j].username@,
                ) ==> r@.contains(j as usize) || (r@.len() == SEARCH_RESULT_LIMIT && j > r@[
                    SEARCH_RESULT_LIMIT - 1
                ]),
        decreases users@.len() - i,
    {
        if r.len() < SEARCH_RESULT_LIMIT && search_match(query, caller_id, &users[i]) {
            let ghost prev = r@;
            r.push(i);
            proof {
                assert forall|j: usize| prev.contains(j) implies r@.contains(j) by {
                    let m = choose|m: int| 0 <= m < prev.len() && prev[m] == j;
                    assert(r@[m] == j);
                }
                assert(r@.last() == i);
            }
        }
        i = i + 1;
    }
    r
}

} // verus!
