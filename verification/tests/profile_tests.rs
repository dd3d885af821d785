use titanlift::dates::DateYmd;
use titanlift::profile::PhysicalProfile;
use titanlift::profile::UpdateStatsRequest;
use titanlift::profile::apply_stats_update;
use titanlift::profile::compute_bmr;
use titanlift::profile::compute_profile_metrics;
use titanlift::profile::compute_tdee;

#[test]
fn bmr_formula_male_example() {
    // 10*70 + 6.25*175 - 5*30 + 5 = 1648.75, truncated toward zero.
    let bmr = compute_bmr(7000, 17500, 30, &String::from("male"));
    assert_eq!(bmr, 1648);
}

#[test]
fn bmr_unrecognized_sex_takes_female_branch() {
    // 10*70 + 6.25*175 - 5*30 - 161 = 1482.75 for "female" and for any
    // unrecognized sex-category string alike.
    let female = compute_bmr(7000, 17500, 30, &String::from("female"));
    let other = compute_bmr(7000, 17500, 30, &String::from("robot"));
    assert_eq!(female, 1482);
    assert_eq!(other, 1482);
}

#[test]
fn tdee_moderate_example() {
    // trunc(1738 * 1.55) = trunc(2693.9) = 2693.
    let tdee = compute_tdee(1738, &String::from("moderate"));
    assert_eq!(tdee, 2693);
}

#[test]
fn tdee_unrecognized_level_defaults_to_sedentary_multiplier() {
    assert_eq!(compute_tdee(2000, &String::from("sedentary")), 2400);
    assert_eq!(compute_tdee(2000, &String::from("couch")), 2400);
    assert_eq!(compute_tdee(2000, &String::from("athlete")), 3800);
    assert_eq!(compute_tdee(2000, &String::from("light")), 2750);
    assert_eq!(compute_tdee(2000, &String::from("active")), 3450);
}

#[test]
fn metrics_present_with_full_profile() {
    let p = PhysicalProfile {
        height_centi_cm: Some(17500),
        weight_centi_kg: Some(7000),
        sex: Some(String::from("male")),
        birth_date: Some(DateYmd { year: 1995, month: 6, day: 15 }),
        activity_level: Some(String::from("moderate")),
    };
    let today = DateYmd { year: 2025, month: 6, day: 14 };
    // 10957 days before the 30th birthday: 10957 / 365 = 30 whole years.
    let m = compute_profile_metrics(&p, today);
    assert_eq!(m.bmr, Some(1648));
    // trunc(1648 * 1.55) = trunc(2554.4).
    assert_eq!(m.tdee, Some(2554));
}

#[test]
fn metrics_absent_without_weight() {
    let p = PhysicalProfile {
        height_centi_cm: Some(17500),
        weight_centi_kg: None,
        sex: Some(String::from("male")),
        birth_date: Some(DateYmd { year: 1995, month: 6, day: 15 }),
        activity_level: Some(String::from("moderate")),
    };
    let m = compute_profile_metrics(&p, DateYmd { year: 2025, month: 6, day: 14 });
    assert_eq!(m.bmr, None);
    assert_eq!(m.tdee, None);
}

#[test]
fn tdee_absent_without_activity_level() {
    let p = PhysicalProfile {
        height_centi_cm: Some(17500),
        weight_centi_kg: Some(7000),
        sex: Some(String::from("male")),
        birth_date: Some(DateYmd { year: 1995, month: 6, day: 15 }),
        activity_level: None,
    };
    let m = compute_profile_metrics(&p, DateYmd { year: 2025, month: 6, day: 14 });
    assert_eq!(m.bmr, Some(1648));
    assert_eq!(m.tdee, None);
}

#[test]
fn metrics_absent_with_nonexistent_birth_date() {
    let p = PhysicalProfile {
        height_centi_cm: Some(17500),
        weight_centi_kg: Some(7000),
        sex: Some(String::from("male")),
        birth_date: Some(DateYmd { year: 1995, month: 6, day: 31 }),
        activity_level: Some(String::from("moderate")),
    };
    let m = compute_profile_metrics(&p, DateYmd { year: 2025, month: 6, day: 14 });
    assert_eq!(m.bmr, None);
    assert_eq!(m.tdee, None);
}

#[test]
fn stats_update_replaces_present_fields_only() {
    let mut p = PhysicalProfile {
        height_centi_cm: Some(17500),
        weight_centi_kg: Some(7000),
        sex: Some(String::from("male")),
        birth_date: Some(DateYmd { year: 1995, month: 6, day: 15 }),
        activity_level: None,
    };
    let u = UpdateStatsRequest {
        height_centi_cm: None,
        weight_centi_kg: Some(7250),
        sex: None,
        birth_date: None,
        activity_level: Some(String::from("light")),
    };
    apply_stats_update(&mut p, &u);
    assert_eq!(p.height_centi_cm, Some(17500));
    assert_eq!(p.weight_centi_kg, Some(7250));
    assert_eq!(p.sex, Some(String::from("male")));
    assert_eq!(p.birth_date, Some(DateYmd { year: 1995, month: 6, day: 15 }));
    assert_eq!(p.activity_level, Some(String::from("light")));
}

#[test]
fn bmr_can_be_negative_and_truncates_toward_zero() {
    // 10*1 + 6.25*1 - 5*100 - 161 = -644.75, truncated toward zero.
    let bmr = compute_bmr(100, 100, 100, &String::from("female"));
    assert_eq!(bmr, -644);
}
