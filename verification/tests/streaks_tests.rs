use titanlift::streaks::compute_streaks;

#[test]
fn gap_resets_the_running_streak() {
    // Mon, Tue, Wed, (gap), Fri with today = Fri.
    let days = vec![0, 1, 2, 4];
    let r = compute_streaks(&days, 4);
    assert_eq!(r.current_streak, 1);
    assert_eq!(r.max_streak, 3);
}

#[test]
fn stale_last_activity_zeroes_the_current_streak() {
    // Mon, Tue with today = Thu: more than one day since the last one.
    let days = vec![0, 1];
    let r = compute_streaks(&days, 3);
    assert_eq!(r.current_streak, 0);
    assert_eq!(r.max_streak, 2);
}

#[test]
fn empty_history_yields_zero_streaks() {
    let days: Vec<i64> = Vec::new();
    let r = compute_streaks(&days, 100);
    assert_eq!(r.current_streak, 0);
    assert_eq!(r.max_streak, 0);
}

#[test]
fn activity_yesterday_keeps_the_streak_alive() {
    let days = vec![7, 8, 9];
    let r = compute_streaks(&days, 10);
    assert_eq!(r.current_streak, 3);
    assert_eq!(r.max_streak, 3);
}

#[test]
fn longest_streak_can_sit_in_the_middle() {
    let days = vec![0, 1, 2, 3, 10, 11, 20];
    let r = compute_streaks(&days, 20);
    assert_eq!(r.current_streak, 1);
    assert_eq!(r.max_streak, 4);
}

#[test]
fn single_active_day_today() {
    let days = vec![42];
    let r = compute_streaks(&days, 42);
    assert_eq!(r.current_streak, 1);
    assert_eq!(r.max_streak, 1);
}
