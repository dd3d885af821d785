use titanlift::leaderboard::LeaderboardFilter;
use titanlift::leaderboard::LeaderboardQuery;
use titanlift::leaderboard::TimeWindow;
use titanlift::leaderboard::VolumeRow;
use titanlift::leaderboard::aggregate_user_volumes;
use titanlift::leaderboard::compute_leaderboard;
use titanlift::leaderboard::parse_leaderboard_query;
use titanlift::leaderboard::rank_leaderboard;

fn row(user_id: u128, weight_centi_kg: u32, reps: u32, logged_at_secs: i64, group: &str) -> VolumeRow {
    VolumeRow {
        user_id,
        weight_centi_kg,
        reps,
        logged_at_secs,
        muscle_group: String::from(group),
    }
}

fn all_time() -> LeaderboardFilter {
    LeaderboardFilter { window: TimeWindow::AllTime, muscle_group: None }
}

#[test]
fn query_periods_parse_with_all_time_default() {
    let q = LeaderboardQuery { period: Some(String::from("weekly")), muscle_group: None };
    assert_eq!(parse_leaderboard_query(&q).window, TimeWindow::Weekly);
    let q = LeaderboardQuery { period: Some(String::from("monthly")), muscle_group: None };
    assert_eq!(parse_leaderboard_query(&q).window, TimeWindow::Monthly);
    let q = LeaderboardQuery { period: Some(String::from("fortnight")), muscle_group: None };
    assert_eq!(parse_leaderboard_query(&q).window, TimeWindow::AllTime);
    let q = LeaderboardQuery { period: None, muscle_group: Some(String::from("back")) };
    let f = parse_leaderboard_query(&q);
    assert_eq!(f.window, TimeWindow::AllTime);
    assert_eq!(f.muscle_group, Some(String::from("back")));
}

#[test]
fn aggregation_groups_by_user() {
    let rows = vec![
        row(1, 10000, 10, 0, "chest"),
        row(2, 5000, 10, 0, "back"),
        row(1, 2000, 5, 0, "legs"),
    ];
    let totals = aggregate_user_volumes(&rows, &all_time(), 0);
    assert_eq!(totals.len(), 2);
    let of = |u: u128| totals.iter().find(|t| t.user_id == u).unwrap().volume_centi_kg;
    assert_eq!(of(1), 110_000);
    assert_eq!(of(2), 50_000);
}

#[test]
fn equal_volumes_rank_by_user_id_ascending() {
    // Users 1 and 2 tie on volume; user 3 leads.  The documented
    // tie-break is the user identifier ascending.
    let rows = vec![
        row(2, 10000, 10, 0, "chest"),
        row(1, 5000, 20, 0, "chest"),
        row(3, 20000, 10, 0, "chest"),
    ];
    let q = LeaderboardQuery { period: None, muscle_group: None };
    let board = compute_leaderboard(&rows, &q, 0);
    let order: Vec<(u128, u64, u64)> =
        board.iter().map(|e| (e.user_id, e.volume_centi_kg, e.rank)).collect();
    assert_eq!(order, vec![(3, 200_000, 1), (1, 100_000, 2), (2, 100_000, 3)]);
}

#[test]
fn weekly_window_excludes_older_sets() {
    let now = 10_000_000;
    let eight_days = 8 * 86_400;
    let rows = vec![
        row(1, 10000, 10, now - 3600, "chest"),
        row(1, 10000, 10, now - eight_days, "chest"),
        row(2, 5000, 10, now - 3600, "chest"),
    ];
    let weekly = LeaderboardQuery { period: Some(String::from("weekly")), muscle_group: None };
    let board = compute_leaderboard(&rows, &weekly, now);
    assert_eq!(board.len(), 2);
    assert_eq!(board[0].user_id, 1);
    assert_eq!(board[0].volume_centi_kg, 100_000);
    let monthly = LeaderboardQuery { period: Some(String::from("monthly")), muscle_group: None };
    let board = compute_leaderboard(&rows, &monthly, now);
    assert_eq!(board[0].volume_centi_kg, 200_000);
}

#[test]
fn muscle_group_filter_is_case_insensitive() {
    let rows = vec![
        row(1, 10000, 10, 0, "Chest"),
        row(1, 10000, 10, 0, "chest"),
        row(1, 10000, 10, 0, "back"),
    ];
    let q = LeaderboardQuery { period: None, muscle_group: Some(String::from("CHEST")) };
    let board = compute_leaderboard(&rows, &q, 0);
    assert_eq!(board.len(), 1);
    assert_eq!(board[0].volume_centi_kg, 200_000);
}

#[test]
fn zero_volume_users_are_excluded() {
    let rows = vec![row(1, 0, 10, 0, "chest"), row(2, 10000, 10, 0, "chest")];
    let board = compute_leaderboard(
        &rows,
        &LeaderboardQuery { period: None, muscle_group: None },
        0,
    );
    assert_eq!(board.len(), 1);
    assert_eq!(board[0].user_id, 2);
}

#[test]
fn board_holds_at_most_ten_entries() {
    let mut rows = Vec::new();
    for u in 1..=12u128 {
        rows.push(row(u, 1000, u as u32, 0, "chest"));
    }
    let board = compute_leaderboard(
        &rows,
        &LeaderboardQuery { period: None, muscle_group: None },
        0,
    );
    assert_eq!(board.len(), 10);
    // Volume descending: users 12 down to 3.
    assert_eq!(board[0].user_id, 12);
    assert_eq!(board[9].user_id, 3);
    let ranks: Vec<u64> = board.iter().map(|e| e.rank).collect();
    assert_eq!(ranks, (1..=10).collect::<Vec<u64>>());
}

#[test]
fn ranking_empty_aggregates_gives_an_empty_board() {
    let board = rank_leaderboard(&Vec::new());
    assert!(board.is_empty());
}
