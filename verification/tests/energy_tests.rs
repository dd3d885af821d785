use titanlift::energy::duration_minutes;
use titanlift::energy::estimate_calories;
use titanlift::workouts::finish_workout_decision;

#[test]
fn zero_duration_yields_zero_calories_regardless_of_volume() {
    assert_eq!(estimate_calories(0, 5_000_000, 7500), 0);
    assert_eq!(estimate_calories(0, 0, 7500), 0);
}

#[test]
fn one_hour_moderate_workout() {
    // volume 10000 kg over 60 min: intensity 10000/60/100, MET 3 + 5/3,
    // calories = trunc(MET * 75 * 1h) = 350.
    assert_eq!(estimate_calories(60, 1_000_000, 7500), 350);
}

#[test]
fn met_is_capped_at_eight() {
    // volume 60000 kg over 60 min: intensity 10, MET capped at 8,
    // calories = 8 * 75 * 1 = 600.
    assert_eq!(estimate_calories(60, 6_000_000, 7500), 600);
    // Exactly at the cap the two formulas agree.
    assert_eq!(estimate_calories(60, 3_000_000, 7500), 600);
}

#[test]
fn low_intensity_stays_near_base_met() {
    // no volume: MET 3.0, calories = 3 * 75 * 2h = 450.
    assert_eq!(estimate_calories(120, 0, 7500), 450);
}

#[test]
fn duration_from_timestamps_truncates_to_whole_minutes() {
    assert_eq!(duration_minutes(Some(0), 3_659), 60);
    assert_eq!(duration_minutes(Some(1_000), 1_000), 0);
    // A missing start time defaults to one hour.
    assert_eq!(duration_minutes(None, 123_456), 60);
}

#[test]
fn finish_decision_combines_duration_calories_and_badges() {
    // 60 minutes, 10000 kg, default weight 75 kg.
    let d = finish_workout_decision(Some(0), 3_600, 1_000_000, None, 12);
    assert_eq!(d.duration_minutes, 60);
    assert_eq!(d.calories_burned, 350);
    let names: Vec<String> =
        d.badges.iter().map(|b| titanlift::badges::badge_name(*b)).collect();
    assert_eq!(names, vec![String::from("Titan Volume")]);
}
