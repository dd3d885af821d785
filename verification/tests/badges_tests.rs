use titanlift::badges::AwardLedger;
use titanlift::badges::Badge;
use titanlift::badges::BadgeAward;
use titanlift::badges::badge_name;
use titanlift::badges::determine_badges;

#[test]
fn titan_volume_excludes_heavy_lifter() {
    // Exactly 10000 kg earns "Titan Volume" alone.
    let badges = determine_badges(1_000_000, 40, 3);
    assert_eq!(badges, vec![Badge::TitanVolume]);
}

#[test]
fn long_workout_below_heavy_threshold_earns_marathoner_only() {
    // 4999 kg over 95 minutes earns "Marathoner" alone.
    let badges = determine_badges(499_900, 95, 3);
    assert_eq!(badges, vec![Badge::Marathoner]);
}

#[test]
fn heavy_lifter_at_its_threshold() {
    let badges = determine_badges(500_000, 40, 3);
    assert_eq!(badges, vec![Badge::HeavyLifter]);
}

#[test]
fn speed_demon_needs_short_duration_and_dense_volume() {
    // 30 minutes at volume just over 2000 kg.
    assert_eq!(determine_badges(200_100, 30, 3), vec![Badge::SpeedDemon]);
    // Exactly 2000 kg is not over the threshold.
    assert_eq!(determine_badges(200_000, 30, 3), Vec::<Badge>::new());
    // 31 minutes is no longer short.
    assert_eq!(determine_badges(200_100, 31, 3), Vec::<Badge>::new());
}

#[test]
fn volume_warrior_is_independent_of_the_other_badges() {
    let badges = determine_badges(1_000_000, 95, 20);
    assert_eq!(badges, vec![Badge::TitanVolume, Badge::Marathoner, Badge::VolumeWarrior]);
    assert_eq!(determine_badges(0, 40, 20), vec![Badge::VolumeWarrior]);
}

#[test]
fn badge_display_names() {
    assert_eq!(badge_name(Badge::TitanVolume), String::from("Titan Volume"));
    assert_eq!(badge_name(Badge::HeavyLifter), String::from("Heavy Lifter"));
    assert_eq!(badge_name(Badge::Marathoner), String::from("Marathoner"));
    assert_eq!(badge_name(Badge::SpeedDemon), String::from("Speed Demon"));
    assert_eq!(badge_name(Badge::VolumeWarrior), String::from("Volume Warrior"));
}

#[test]
fn finishing_the_same_workout_twice_awards_nothing_new() {
    let mut ledger = AwardLedger::new();
    let badges = vec![Badge::TitanVolume, Badge::Marathoner];
    ledger.record_workout_badges(7, 42, &badges);
    assert_eq!(ledger.len(), 2);
    // The same workout again: both keys exist, nothing is added.
    ledger.record_workout_badges(7, 42, &badges);
    assert_eq!(ledger.len(), 2);
}

#[test]
fn same_badge_on_a_different_workout_is_a_new_award() {
    let mut ledger = AwardLedger::new();
    ledger.record_workout_badges(7, 42, &vec![Badge::HeavyLifter]);
    ledger.record_workout_badges(7, 43, &vec![Badge::HeavyLifter]);
    assert_eq!(ledger.len(), 2);
    assert!(ledger.contains_award(&BadgeAward { user_id: 7, workout_id: 42, badge: Badge::HeavyLifter }));
    assert!(ledger.contains_award(&BadgeAward { user_id: 7, workout_id: 43, badge: Badge::HeavyLifter }));
}

#[test]
fn duplicate_single_award_is_a_no_op() {
    let mut ledger = AwardLedger::new();
    let a = BadgeAward { user_id: 1, workout_id: 2, badge: Badge::SpeedDemon };
    ledger.record_award(a);
    ledger.record_award(a);
    assert_eq!(ledger.len(), 1);
    assert_eq!(ledger.get(0), a);
}
