use titanlift::records::SetEntry;
use titanlift::records::evaluate_set;
use titanlift::records::prior_max_reps;
use titanlift::records::prior_max_weight;
use titanlift::records::workout_volume;

#[test]
fn equal_weight_is_no_one_rep_max_record() {
    // Prior max 100 kg: 100 kg is not a record, 100.1 kg is.
    let prior = vec![SetEntry { weight_centi_kg: 10000, reps: 5 }];
    let equal = evaluate_set(10000, 3, &prior);
    assert!(!equal.is_new_one_rep_max);
    let above = evaluate_set(10010, 3, &prior);
    assert!(above.is_new_one_rep_max);
    assert!(!above.is_volume_record);
}

#[test]
fn rep_record_at_weight_or_above() {
    // Prior sets 80 kg x 6 and 90 kg x 4: a set of 85 kg x 7 is a volume
    // record (prior max reps at >= 85 kg is 4, and 7 > 4 and 7 > 5) and
    // no one-rep-max record.
    let prior = vec![
        SetEntry { weight_centi_kg: 8000, reps: 6 },
        SetEntry { weight_centi_kg: 9000, reps: 4 },
    ];
    let r = evaluate_set(8500, 7, &prior);
    assert!(!r.is_new_one_rep_max);
    assert!(r.is_volume_record);
}

#[test]
fn low_rep_sets_are_never_volume_records() {
    let prior = vec![
        SetEntry { weight_centi_kg: 8000, reps: 3 },
        SetEntry { weight_centi_kg: 9000, reps: 2 },
    ];
    // 5 reps beat the prior 2 at this weight, but 5 is not > 5.
    let r = evaluate_set(8500, 5, &prior);
    assert!(!r.is_new_one_rep_max);
    assert!(!r.is_volume_record);
}

#[test]
fn first_set_ever_is_a_one_rep_max_record() {
    let prior: Vec<SetEntry> = Vec::new();
    let r = evaluate_set(2000, 8, &prior);
    assert!(r.is_new_one_rep_max);
    assert!(!r.is_volume_record);
}

#[test]
fn zero_weight_set_on_empty_history_is_no_record() {
    let prior: Vec<SetEntry> = Vec::new();
    let r = evaluate_set(0, 8, &prior);
    assert!(!r.is_new_one_rep_max);
    // No prior reps at weight >= 0 means max 0, and 8 > 0 and 8 > 5.
    assert!(r.is_volume_record);
}

#[test]
fn prior_maxima_over_history() {
    let prior = vec![
        SetEntry { weight_centi_kg: 8000, reps: 6 },
        SetEntry { weight_centi_kg: 9000, reps: 4 },
        SetEntry { weight_centi_kg: 7000, reps: 12 },
    ];
    assert_eq!(prior_max_weight(&prior), 9000);
    assert_eq!(prior_max_reps(&prior, 7500), 6);
    assert_eq!(prior_max_reps(&prior, 9500), 0);
}

#[test]
fn volume_sums_weight_times_reps() {
    let sets = vec![
        SetEntry { weight_centi_kg: 8000, reps: 6 },
        SetEntry { weight_centi_kg: 9000, reps: 4 },
    ];
    // 80*6 + 90*4 = 840 kg.
    assert_eq!(workout_volume(&sets), 84_000);
    assert_eq!(workout_volume(&Vec::new()), 0);
}
