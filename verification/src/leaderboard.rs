//! Leaderboard ranking.
//!
//! Volume is summed as weight times reps over every set that passes the
//! query's time window and category filter, grouped by user.  Users are
//! ranked by volume descending; equal volumes are ordered by user
//! identifier ascending, a deliberate, documented tie-break so the order
//! is deterministic.  Ranks are the positions 1 onward, users with no
//! qualifying volume are excluded, and the board holds at most ten
//! entries.

use vstd::prelude::*;

use crate::text::fold_eq;

verus! {

broadcast use vstd::seq_lib::group_to_multiset_ensures;

/// How many entries a leaderboard holds at most.
pub const LEADERBOARD_LIMIT: usize = 10;

/// The trailing-week window, in seconds.
pub const WEEK_SECONDS: i64 = 604_800;

/// The trailing-month window (thirty days), in seconds.
pub const MONTH_SECONDS: i64 = 2_592_000;

/// The leaderboard query as the request layer receives it: an optional
/// period name and an optional muscle-group label.
pub struct LeaderboardQuery {
    pub period: Option<String>,
    pub muscle_group: Option<String>,
}

/// The time window a period name selects.
#[derive(Clone, Copy, Debug, PartialEq, Eq, Structural)]
pub enum TimeWindow {
    AllTime,
    Weekly,
    Monthly,
}

/// The typed filter a query parses into.
pub struct LeaderboardFilter {
    pub window: TimeWindow,
    pub muscle_group: Option<String>,
}

/// The window a query's period selects: `weekly` and `monthly` by name,
/// all time for any other value and by default.
pub open spec fn spec_query_window(q: LeaderboardQuery) -> TimeWindow {
    if q.period is Some {
        if q.period.unwrap()@ == "weekly"@ {
            TimeWindow::Weekly
        } else if q.period.unwrap()@ == "monthly"@ {
            TimeWindow::Monthly
        } else {
            TimeWindow::AllTime
        }
    } else {
        TimeWindow::AllTime
    }
}

/// The typed filter of a query.
pub open spec fn spec_filter_of(q: LeaderboardQuery) -> LeaderboardFilter {
    LeaderboardFilter { window: spec_query_window(q), muscle_group: q.muscle_group }
}

/// Parses a query into its typed filter.
pub fn parse_leaderboard_query(q: &LeaderboardQuery) -> (f: LeaderboardFilter)
    ensures
        f == spec_filter_of(*q),
{
    let window = match &q.period {
        Some(p) => {
            if *p == String::from_str("weekly") {
                TimeWindow::Weekly
            } else if *p == String::from_str("monthly") {
                TimeWindow::Monthly
            } else {
                TimeWindow::AllTime
            }
        },
        None => TimeWindow::AllTime,
    };
    let muscle_group = match &q.muscle_group {
        Some(g) => Some(g.clone()),
        None => None,
    };
    LeaderboardFilter { window, muscle_group }
}

/// One set as the leaderboard sees it: who lifted, how much, when, and
/// the exercise's muscle group.
pub struct VolumeRow {
    pub user_id: u128,
    pub weight_centi_kg: u32,
    pub reps: u32,
    pub logged_at_secs: i64,
    pub muscle_group: String,
}

/// Whether a row passes the filter as of `now_secs`: inside the selected
/// trailing window, and of the selected muscle group (up to ASCII case)
/// when one is selected.
pub open spec fn spec_row_matches(row: VolumeRow, f: LeaderboardFilter, now_secs: int) -> bool {
    (match f.window {
        TimeWindow::AllTime => true,
        TimeWindow::Weekly => row.logged_at_secs >= now_secs - WEEK_SECONDS,
        TimeWindow::Monthly => row.logged_at_secs >= now_secs - MONTH_SECONDS,
    }) && (f.muscle_group is Some ==> fold_eq(row.muscle_group@, f.muscle_group.unwrap()@))
}

/// A user's aggregate volume over the matching rows, in hundredths of a
/// kilogram.
pub open spec fn user_volume(rows: Seq<VolumeRow>, f: LeaderboardFilter, now_secs: int, u: u128) -> int
    decreases rows.len(),
{
    if rows.len() == 0 {
        0
    } else {
        user_volume(rows.drop_last(), f, now_secs, u) + if rows.last().user_id == u
            && spec_row_matches(rows.last(), f, now_secs) {
            rows.last().weight_centi_kg * rows.last().reps
        } else {
            0
        }
    }
}

/// Whether any matching row belongs to the user.
pub open spec fn appears(rows: Seq<VolumeRow>, f: LeaderboardFilter, now_secs: int, u: u128) -> bool {
    exists|i: int|
        0 <= i < rows.len() && (#[trigger] rows[i]).user_id == u && spec_row_matches(
            rows[i],
            f,
            now_secs,
        )
}

/// A user's volume over a prefix never exceeds it over the whole list.
proof fn lemma_user_volume_prefix_le(
    rows: Seq<VolumeRow>,
    f: LeaderboardFilter,
    now_secs: int,
    u: u128,
    n: int,
)
    requires
        0 <= n <= rows.len(),
    ensures
        user_volume(rows.take(n), f, now_secs, u) <= user_volume(rows, f, now_secs, u),
    decreases rows.len() - n,
{
    if n < rows.len() {
        lemma_user_volume_prefix_le(rows, f, now_secs, u, n + 1);
        assert(rows.take(n + 1).drop_last() =~= rows.take(n));
        vstd::arithmetic::mul::lemma_mul_nonnegative(
            rows[n].weight_centi_kg as int,
            rows[n].reps as int,
        );
    } else {
        assert(rows.take(n) =~= rows);
    }
}

/// A user with no matching row has volume zero.
proof fn lemma_user_volume_absent(rows: Seq<VolumeRow>, f: LeaderboardFilter, now_secs: int, u: u128)
    requires
        !appears(rows, f, now_secs, u),
    ensures
        user_volume(rows, f, now_secs, u) == 0,
    decreases rows.len(),
{
    if rows.len() > 0 {
        assert(!appears(rows.drop_last(), f, now_secs, u)) by {
            if appears(rows.drop_last(), f, now_secs, u) {
                let i = choose|i: int|
                    0 <= i < rows.drop_last().len() && rows.drop_last()[i].user_id == u
                        && spec_row_matches(rows.drop_last()[i], f, now_secs);
                assert(rows[i] == rows.drop_last()[i]);
            }
        }
        lemma_user_volume_absent(rows.drop_last(), f, now_secs, u);
        assert(!(rows.last().user_id == u && spec_row_matches(rows.last(), f, now_secs))) by {
            if rows.last().user_id == u && spec_row_matches(rows.last(), f, now_secs) {
                assert(rows[rows.len() - 1].user_id == u && spec_row_matches(
                    rows[rows.len() - 1],
                    f,
                    now_secs,
                ));
            }
        }
    }
}

/// A user's volume is never negative.
proof fn lemma_user_volume_nonneg(rows: Seq<VolumeRow>, f: LeaderboardFilter, now_secs: int, u: u128)
    ensures
        user_volume(rows, f, now_secs, u) >= 0,
    decreases rows.len(),
{
    if rows.len() > 0 {
        lemma_user_volume_nonneg(rows.drop_last(), f, now_secs, u);
        vstd::arithmetic::mul::lemma_mul_nonnegative(
            rows.last().weight_centi_kg as int,
            rows.last().reps as int,
        );
    }
}

/// Whether a row passes the filter as of `now_secs`.
pub fn row_matches(row: &VolumeRow, f: &LeaderboardFilter, now_secs: i64) -> (r: bool)
    ensures
        r == spec_row_matches(*row, *f, now_secs as int),
{
    let in_window = match f.window {
        TimeWindow::AllTime => true,
        TimeWindow::Weekly => (row.logged_at_secs as i128) >= (now_secs as i128) - (
        WEEK_SECONDS as i128),
        TimeWindow::Monthly => (row.logged_at_secs as i128) >= (now_secs as i128) - (
        MONTH_SECONDS as i128),
    };
    let in_group = match &f.muscle_group {
        Some(g) => crate::text::eq_ignore_ascii_case(row.muscle_group.as_str(), g.as_str()),
        None => true,
    };
    in_window && in_group
}

/// A user's aggregate volume, in hundredths of a kilogram.
#[derive(Clone, Copy, Debug, PartialEq, Eq, Structural)]
pub struct UserVolume {
    pub user_id: u128,
    pub volume_centi_kg: u64,
}

/// The position of a user among the aggregates, if present.
fn find_user(acc: &Vec<UserVolume>, u: u128) -> (r: Option<usize>)
    ensures
        match r {
            Some(k) => k < acc@.len() && acc@[k as int].user_id == u,
            None => forall|k: int| 0 <= k < acc@.len() ==> acc@[k].user_id != u,
        },
{
    let mut k: usize = 0;
    while k < acc.len()
        invariant
            k <= acc@.len(),
            forall|j: int| 0 <= j < k ==> acc@[j].user_id != u,
        decreases acc@.len() - k,
    {
        if acc[k].user_id == u {
            return Some(k);
        }
        k = k + 1;
    }
    None
}

/// Sums the matching rows by user.  The result holds each user with at
/// least one matching row, exactly once, with that user's full aggregate
/// volume.  The one precondition is the machine limit that every
/// aggregate fit a `u64`.
pub fn aggregate_user_volumes(rows: &Vec<VolumeRow>, f: &LeaderboardFilter, now_secs: i64) -> (acc:
    Vec<UserVolume>)
    requires
        forall|u: u128| user_volume(rows@, *f, now_secs as int, u) <= u64::MAX,
    ensures
        forall|k1: int, k2: int|
            0 <= k1 < k2 < acc@.len() ==> acc@[k1].user_id != acc@[k2].user_id,
        forall|k: int|
            0 <= k < acc@.len() ==> (#[trigger] acc@[k]).volume_centi_kg == user_volume(
                rows@,
                *f,
                now_secs as int,
                acc@[k].user_id,
            ) && appears(rows@, *f, now_secs as int, acc@[k].user_id),
        forall|u: u128|
            appears(rows@, *f, now_secs as int, u) ==> exists|k: int|
                0 <= k < acc@.len() && (#[trigger] acc@[k]).user_id == u,
{
    let ghost gf = *f;
    let ghost now = now_secs as int;
    let mut acc: Vec<UserVolume> = Vec::new();
    let mut i: usize = 0;
    proof {
        assert(rows@.take(0) =~= Seq::<VolumeRow>::empty());
    }
    while i < rows.len()
        invariant
            i <= rows@.len(),
            forall|u: u128| user_volume(rows@, gf, now, u) <= u64::MAX,
            gf == *f,
            now == now_secs as int,
            forall|k1: int, k2: int|
                0 <= k1 < k2 < acc@.len() ==> acc@[k1].user_id != acc@[k2].user_id,
            forall|k: int|
                0 <= k < acc@.len() ==> (#[trigger] acc@[k]).volume_centi_kg == user_volume(
                    rows@.take(i as int),
                    gf,
                    now,
                    acc@[k].user_id,
                ) && appears(rows@.take(i as int), gf, now, acc@[k].user_id),
            forall|u: u128|
                appears(rows@.take(i as int), gf, now, u) ==> exists|k: int|
                    0 <= k < acc@.len() && (#[trigger] acc@[k]).user_id == u,
        decreases rows@.len() - i,
    {
        let ghost prefix = rows@.take(i as int);
        let ghost prefix1 = rows@.take(i + 1);
        let ghost acc0 = acc@;
        proof {
            assert(prefix1.drop_last() =~= prefix);
            assert(prefix1.last() == rows@[i as int]);
        }
        let row = &rows[i];
        if row_matches(row, f, now_secs) {
            proof {
                crate::num::lemma_mul_magnitude(
                    row.weight_centi_kg as int,
                    row.reps as int,
                    4294967295,
                    4294967295,
                );
            }
            let product: u64 = (row.weight_centi_kg as u64) * (row.reps as u64);
            proof {
                lemma_user_volume_prefix_le(rows@, gf, now, row.user_id, i + 1);
                lemma_user_volume_nonneg(prefix, gf, now, row.user_id);
            }
            match find_user(&acc, row.user_id) {
                Some(k) => {
                    let updated = UserVolume {
                        user_id: row.user_id,
                        volume_centi_kg: acc[k].volume_centi_kg + product,
                    };
                    let ghost prev = acc@;
                    acc.set(k, updated);
                    proof {
                        assert forall|k2: int|
                            0 <= k2 < acc@.len() implies (#[trigger] acc@[k2]).volume_centi_kg
                            == user_volume(prefix1, gf, now, acc@[k2].user_id) && appears(
                            prefix1,
                            gf,
                            now,
                            acc@[k2].user_id,
                        ) by {
                            if k2 == k {
                                assert(prefix1[i as int] == rows@[i as int]);
                            } else {
                                assert(acc@[k2] == prev[k2]);
                                assert(acc@[k2].user_id != row.user_id);
                                let u2 = acc@[k2].user_id;
                                assert(appears(prefix, gf, now, u2));
                                let j = choose|j: int|
                                    0 <= j < prefix.len() && prefix[j].user_id == u2
                                        && spec_row_matches(prefix[j], gf, now);
                                assert(prefix1[j] == prefix[j]);
                            }
                        }
                        assert(acc@[k as int].user_id == rows@[i as int].user_id);
                    }
                },
                None => {
                    proof {
                        if appears(prefix, gf, now, row.user_id) {
                            assert(exists|k: int|
                                0 <= k < acc@.len() && (#[trigger] acc@[k]).user_id
                                    == row.user_id);
                        }
                        lemma_user_volume_absent(prefix, gf, now, row.user_id);
                    }
                    let ghost prev = acc@;
                    acc.push(UserVolume { user_id: row.user_id, volume_centi_kg: product });
                    proof {
                        assert forall|k2: int|
                            0 <= k2 < acc@.len() implies (#[trigger] acc@[k2]).volume_centi_kg
                            == user_volume(prefix1, gf, now, acc@[k2].user_id) && appears(
                            prefix1,
                            gf,
                            now,
                            acc@[k2].user_id,
                        ) by {
                            if k2 == acc@.len() - 1 {
                                assert(acc@[k2].user_id == row.user_id);
                                assert(prefix1[i as int] == rows@[i as int]);
                            } else {
                                assert(acc@[k2] == prev[k2]);
                                let u2 = acc@[k2].user_id;
                                assert(appears(prefix, gf, now, u2));
                                let j = choose|j: int|
                                    0 <= j < prefix.len() && prefix[j].user_id == u2
                                        && spec_row_matches(prefix[j], gf, now);
                                assert(prefix1[j] == prefix[j]);
                                assert(u2 != row.user_id);
                            }
                        }
                        assert(acc@[acc@.len() - 1].user_id == rows@[i as int].user_id);
                    }
                },
            }
        } else {
            proof {
                assert forall|k2: int|
                    0 <= k2 < acc@.len() implies (#[trigger] acc@[k2]).volume_centi_kg
                    == user_volume(prefix1, gf, now, acc@[k2].user_id) && appears(
                    prefix1,
                    gf,
                    now,
                    acc@[k2].user_id,
                ) by {
                    let u2 = acc@[k2].user_id;
                    assert(appears(prefix, gf, now, u2));
                    let j = choose|j: int|
                        0 <= j < prefix.len() && prefix[j].user_id == u2 && spec_row_matches(
                            prefix[j],
                            gf,
                            now,
                        );
                    assert(prefix1[j] == prefix[j]);
                }
            }
        }
        proof {
            assert forall|u: u128| appears(prefix1, gf, now, u) implies exists|k: int|
                0 <= k < acc@.len() && (#[trigger] acc@[k]).user_id == u by {
                let j = choose|j: int|
                    0 <= j < prefix1.len() && prefix1[j].user_id == u && spec_row_matches(
                        prefix1[j],
                        gf,
                        now,
                    );
                if j < i {
                    assert(prefix[j] == prefix1[j]);
                    assert(appears(prefix, gf, now, u));
                    let k0 = choose|k0: int| 0 <= k0 < acc0.len() && acc0[k0].user_id == u;
                    assert(0 <= k0 < acc@.len());
                    assert(acc@[k0].user_id == u);
                } else {
                    assert(u == rows@[i as int].user_id);
                    assert(spec_row_matches(rows@[i as int], gf, now));
                }
            }
        }
        i = i + 1;
    }
    proof {
        assert(rows@.take(rows@.len() as int) =~= rows@);
    }
    acc
}

/// `a` ranks at or before `b`: more volume, or the same volume and an
/// identifier no greater (volume descending, identifier ascending).
pub open spec fn spec_ranks_at_or_before(a: UserVolume, b: UserVolume) -> bool {
    a.volume_centi_kg > b.volume_centi_kg || (a.volume_centi_kg == b.volume_centi_kg && a.user_id
        <= b.user_id)
}

/// `a` ranks strictly before `b`: more volume, or the same volume and a
/// smaller identifier — the documented deterministic tie-break.
pub open spec fn spec_ranks_before(a: UserVolume, b: UserVolume) -> bool {
    a.volume_centi_kg > b.volume_centi_kg || (a.volume_centi_kg == b.volume_centi_kg && a.user_id
        < b.user_id)
}

/// The aggregates are in rank order.
pub open spec fn rank_sorted(s: Seq<UserVolume>) -> bool {
    forall|i: int, j: int|
        #![trigger s[i], s[j]]
        0 <= i < j < s.len() ==> spec_ranks_at_or_before(s[i], s[j])
}

/// No user occurs twice.
pub open spec fn distinct_users(s: Seq<UserVolume>) -> bool {
    forall|i: int, j: int|
        #![trigger s[i], s[j]]
        0 <= i < j < s.len() ==> s[i].user_id != s[j].user_id
}

/// Whether `a` ranks at or before `b`.
fn ranks_at_or_before(a: &UserVolume, b: &UserVolume) -> (r: bool)
    ensures
        r == spec_ranks_at_or_before(*a, *b),
{
    a.volume_centi_kg > b.volume_centi_kg || (a.volume_centi_kg == b.volume_centi_kg && a.user_id
        <= b.user_id)
}

/// Sorts the aggregates into rank order by insertion, keeping exactly the
/// same collection of entries.
pub fn sort_user_volumes(input: &Vec<UserVolume>) -> (out: Vec<UserVolume>)
    ensures
        out@.to_multiset() == input@.to_multiset(),
        rank_sorted(out@),
{
    let mut out: Vec<UserVolume> = Vec::new();
    let mut i: usize = 0;
    proof {
        assert(input@.take(0) =~= out@);
    }
    while i < input.len()
        invariant
            i <= input@.len(),
            out@.len() == i,
            out@.to_multiset() == input@.take(i as int).to_multiset(),
            rank_sorted(out@),
        decreases input@.len() - i,
    {
        let x = input[i];
        let mut j: usize = 0;
        while j < out.len() && ranks_at_or_before(&out[j], &x)
            invariant
                j <= out@.len(),
                forall|m: int| 0 <= m < j ==> spec_ranks_at_or_before(#[trigger] out@[m], x),
            decreases out@.len() - j,
        {
            j = j + 1;
        }
        let ghost prev = out@;
        out.insert(j, x);
        proof {
            prev.insert_ensures(j as int, x);
            assert(prev.insert(j as int, x).to_multiset() == prev.to_multiset().insert(x));
            assert(input@.take(i + 1) =~= input@.take(i as int).push(x));
            assert(input@.take(i as int).push(x).to_multiset() == input@.take(
                i as int,
            ).to_multiset().insert(x));
            assert forall|i1: int, i2: int|
                #![trigger out@[i1], out@[i2]]
                0 <= i1 < i2 < out@.len() implies spec_ranks_at_or_before(out@[i1], out@[i2]) by {
                if i2 < j {
                    assert(out@[i1] == prev[i1] && out@[i2] == prev[i2]);
                } else if i2 == j {
                    assert(out@[i1] == prev[i1] && out@[i2] == x);
                } else if i1 == j {
                    assert(out@[i1] == x && out@[i2] == prev[i2 - 1]);
                    assert(j < prev.len() ==> !spec_ranks_at_or_before(prev[j as int], x));
                    if i2 - 1 > j {
                        assert(spec_ranks_at_or_before(prev[j as int], prev[i2 - 1]));
                    }
                } else if i1 < j {
                    assert(out@[i1] == prev[i1] && out@[i2] == prev[i2 - 1]);
                    if i1 < i2 - 1 {
                        assert(spec_ranks_at_or_before(prev[i1], prev[i2 - 1]));
                    }
                } else {
                    assert(out@[i1] == prev[i1 - 1] && out@[i2] == prev[i2 - 1]);
                }
            }
        }
        i = i + 1;
    }
    proof {
        assert(input@.take(input@.len() as int) =~= input@);
    }
    out
}

/// Rearranging the aggregates keeps users distinct.
proof fn lemma_distinct_users_permutation(a: Seq<UserVolume>, b: Seq<UserVolume>)
    requires
        a.to_multiset() == b.to_multiset(),
        distinct_users(a),
    ensures
        distinct_users(b),
{
    assert(a.no_duplicates());
    a.lemma_multiset_has_no_duplicates();
    b.lemma_multiset_has_no_duplicates_conv();
    assert forall|i: int, j: int|
        #![trigger b[i], b[j]]
        0 <= i < j < b.len() implies b[i].user_id != b[j].user_id by {
        assert(b.contains(b[i]));
        assert(b.contains(b[j]));
        assert(b.to_multiset().count(b[i]) > 0);
        assert(b.to_multiset().count(b[j]) > 0);
        assert(a.to_multiset().count(b[i]) > 0);
        assert(a.to_multiset().count(b[j]) > 0);
        assert(a.contains(b[i]));
        assert(a.contains(b[j]));
        let p = choose|p: int| 0 <= p < a.len() && a[p] == b[i];
        let q = choose|q: int| 0 <= q < a.len() && a[q] == b[j];
        assert(b[i] != b[j]);
    }
}

/// A leaderboard entry: user, aggregate volume, and rank by position.
#[derive(Clone, Copy, Debug, PartialEq, Eq, Structural)]
pub struct LeaderboardEntry {
    pub user_id: u128,
    pub volume_centi_kg: u64,
    pub rank: u64,
}

/// The aggregate an entry stands for.
pub open spec fn entry_key(e: LeaderboardEntry) -> UserVolume {
    UserVolume { user_id: e.user_id, volume_centi_kg: e.volume_centi_kg }
}

/// Ranks the aggregates: rank order with the documented tie-break, ranks
/// 1 onward by position, zero-volume users excluded, at most ten entries.
/// Every positive aggregate is on the board or ranks after its last entry.
pub fn rank_leaderboard(totals: &Vec<UserVolume>) -> (r: Vec<LeaderboardEntry>)
    requires
        distinct_users(totals@),
    ensures
        r@.len() <= LEADERBOARD_LIMIT,
        forall|k: int| 0 <= k < r@.len() ==> (#[trigger] r@[k]).rank == k + 1,
        forall|k: int| 0 <= k < r@.len() ==> (#[trigger] r@[k]).volume_centi_kg > 0,
        forall|k1: int, k2: int|
            #![trigger r@[k1], r@[k2]]
            0 <= k1 < k2 < r@.len() ==> spec_ranks_before(entry_key(r@[k1]), entry_key(r@[k2])),
        forall|k: int| 0 <= k < r@.len() ==> totals@.contains(entry_key(#[trigger] r@[k])),
        forall|m: int|
            0 <= m < totals@.len() && (#[trigger] totals@[m]).volume_centi_kg > 0 ==> (exists|
                k: int,
            |
                0 <= k < r@.len() && entry_key(#[trigger] r@[k]) == totals@[m]) || (r@.len()
                == LEADERBOARD_LIMIT && spec_ranks_before(
                entry_key(r@[LEADERBOARD_LIMIT - 1]),
                totals@[m],
            )),
{
    let sorted = sort_user_volumes(totals);
    proof {
        lemma_distinct_users_permutation(totals@, sorted@);
    }
    let mut r: Vec<LeaderboardEntry> = Vec::new();
    let mut i: usize = 0;
    while i < sorted.len() && r.len() < LEADERBOARD_LIMIT && sorted[i].volume_centi_kg > 0
        invariant
            i <= sorted@.len(),
            r@.len() == i,
            i <= LEADERBOARD_LIMIT,
            forall|k: int|
                0 <= k < i ==> entry_key(#[trigger] r@[k]) == sorted@[k] && r@[k].rank == k + 1
                    && r@[k].volume_centi_kg > 0,
        decreases sorted@.len() - i,
    {
        r.push(
            LeaderboardEntry {
                user_id: sorted[i].user_id,
                volume_centi_kg: sorted[i].volume_centi_kg,
                rank: (i as u64) + 1,
            },
        );
        i = i + 1;
    }
    proof {
        assert forall|k: int| 0 <= k < r@.len() implies totals@.contains(
            entry_key(#[trigger] r@[k]),
        ) by {
            assert(sorted@.contains(sorted@[k]));
            assert(sorted@.to_multiset().count(sorted@[k]) > 0);
            assert(totals@.to_multiset().count(sorted@[k]) > 0);
            assert(totals@.contains(sorted@[k]));
        }
        assert forall|m: int|
            0 <= m < totals@.len() && (#[trigger] totals@[m]).volume_centi_kg > 0 implies (exists|
            k: int,
        |
            0 <= k < r@.len() && entry_key(#[trigger] r@[k]) == totals@[m]) || (r@.len()
            == LEADERBOARD_LIMIT && spec_ranks_before(
            entry_key(r@[LEADERBOARD_LIMIT - 1]),
            totals@[m],
        )) by {
            let e = totals@[m];
            assert(totals@.contains(e));
            assert(totals@.to_multiset().count(e) > 0);
            assert(sorted@.to_multiset().count(e) > 0);
            assert(sorted@.contains(e));
            let idx = choose|idx: int| 0 <= idx < sorted@.len() && sorted@[idx] == e;
            if idx < i {
                assert(entry_key(r@[idx]) == e);
            } else {
                // The loop stopped before reaching idx.
                if i < sorted@.len() && i < LEADERBOARD_LIMIT {
                    // It stopped on a zero-volume aggregate, which every
                    // later one ranks at or after; that contradicts e's
                    // positive volume.
                    assert(sorted@[i as int].volume_centi_kg == 0);
                    if idx > i {
                        assert(spec_ranks_at_or_before(sorted@[i as int], sorted@[idx]));
                    }
                    assert(false);
                } else if i == LEADERBOARD_LIMIT {
                    assert(r@.len() == LEADERBOARD_LIMIT);
                    assert(entry_key(r@[LEADERBOARD_LIMIT - 1]) == sorted@[
                        LEADERBOARD_LIMIT - 1
                    ]);
                    assert(idx > LEADERBOARD_LIMIT - 1);
                    assert(spec_ranks_at_or_before(sorted@[LEADERBOARD_LIMIT - 1], sorted@[idx]));
                    assert(sorted@[LEADERBOARD_LIMIT - 1].user_id != sorted@[idx].user_id);
                }
            }
        }
    }
    r
}

/// Computes the leaderboard: parses the query into its typed filter,
/// aggregates the matching rows by user, and ranks the aggregates.  Each
/// entry carries a user's full aggregate volume under the filter; every
/// user with positive volume is on the board or ranks after its last
/// entry.  The one precondition is the machine limit that every aggregate
/// fit a `u64`.
pub fn compute_leaderboard(rows: &Vec<VolumeRow>, query: &LeaderboardQuery, now_secs: i64) -> (r:
    Vec<LeaderboardEntry>)
    requires
        forall|u: u128|
            user_volume(rows@, spec_filter_of(*query), now_secs as int, u) <= u64::MAX,
    ensures
        r@.len() <= LEADERBOARD_LIMIT,
        forall|k: int| 0 <= k < r@.len() ==> (#[trigger] r@[k]).rank == k + 1,
        forall|k1: int, k2: int|
            #![trigger r@[k1], r@[k2]]
            0 <= k1 < k2 < r@.len() ==> spec_ranks_before(entry_key(r@[k1]), entry_key(r@[k2])),
        forall|k: int|
            0 <= k < r@.len() ==> (#[trigger] r@[k]).volume_centi_kg == user_volume(
                rows@,
                spec_filter_of(*query),
                now_secs as int,
                r@[k].user_id,
            ) && r@[k].volume_centi_kg > 0,
        forall|u: u128|
            #![trigger user_volume(rows@, spec_filter_of(*query), now_secs as int, u)]
            user_volume(rows@, spec_filter_of(*query), now_secs as int, u) > 0 ==> (exists|k: int|
                0 <= k < r@.len() && (#[trigger] r@[k]).user_id == u) || (r@.len()
                == LEADERBOARD_LIMIT && spec_ranks_before(
                entry_key(r@[LEADERBOARD_LIMIT - 1]),
                UserVolume {
                    user_id: u,
                    volume_centi_kg: user_volume(
                        rows@,
                        spec_filter_of(*query),
                        now_secs as int,
                        u,
                    ) as u64,
                },
            )),
{
    let f = parse_leaderboard_query(query);
    let ghost gf = spec_filter_of(*query);
    let ghost now = now_secs as int;
    proof {
        assert forall|u: u128| user_volume(rows@, f, now_secs as int, u) <= u64::MAX by {
            assert(user_volume(rows@, gf, now_secs as int, u) <= u64::MAX);
        }
    }
    let totals = aggregate_user_volumes(rows, &f, now_secs);
    proof {
        assert(distinct_users(totals@));
    }
    let r = rank_leaderboard(&totals);
    proof {
        assert forall|k: int|
            0 <= k < r@.len() implies (#[trigger] r@[k]).volume_centi_kg == user_volume(
            rows@,
            gf,
            now,
            r@[k].user_id,
        ) && r@[k].volume_centi_kg > 0 by {
            assert(totals@.contains(entry_key(r@[k])));
            let m = choose|m: int| 0 <= m < totals@.len() && totals@[m] == entry_key(r@[k]);
            assert(totals@[m].volume_centi_kg == user_volume(rows@, gf, now, totals@[m].user_id));
        }
        assert forall|u: u128|
            #![trigger user_volume(rows@, spec_filter_of(*query), now_secs as int, u)]
            user_volume(rows@, gf, now, u) > 0 implies (exists|k: int|
            0 <= k < r@.len() && (#[trigger] r@[k]).user_id == u) || (r@.len()
            == LEADERBOARD_LIMIT && spec_ranks_before(
            entry_key(r@[LEADERBOARD_LIMIT - 1]),
            UserVolume { user_id: u, volume_centi_kg: user_volume(rows@, gf, now, u) as u64 },
        )) by {
            if !appears(rows@, gf, now, u) {
                lemma_user_volume_absent(rows@, gf, now, u);
            }
            assert(appears(rows@, gf, now, u));
            let m = choose|m: int| 0 <= m < totals@.len() && (#[trigger] totals@[m]).user_id == u;
            assert(totals@[m].volume_centi_kg == user_volume(rows@, gf, now, u));
            assert(totals@[m].volume_centi_kg > 0);
            if exists|k: int| 0 <= k < r@.len() && entry_key(#[trigger] r@[k]) == totals@[m] {
                let k = choose|k: int|
                    0 <= k < r@.len() && entry_key(#[trigger] r@[k]) == totals@[m];
                assert(r@[k].user_id == u);
            } else {
                assert(r@.len() == LEADERBOARD_LIMIT && spec_ranks_before(
                    entry_key(r@[LEADERBOARD_LIMIT - 1]),
                    totals@[m],
                ));
                assert(totals@[m] == UserVolume {
                    user_id: u,
                    volume_centi_kg: user_volume(rows@, gf, now, u) as u64,
                });
            }
        }
    }
    r
}

} // verus!
