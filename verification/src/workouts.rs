//! The workout-finish decision.
//!
//! Finishing a workout derives everything the persistence layer then
//! writes in one unit of work: the duration, the calorie estimate, and
//! the badges earned.  The decision is a pure function of the workout's
//! start and end times, its total volume and set count, and the user's
//! body weight (defaulted when absent); the caller persists the results
//! and records the badge awards idempotently.

use vstd::prelude::*;

use crate::badges::Badge;
use crate::badges::determine_badges;
use crate::badges::spec_badges;
use crate::energy::DEFAULT_BODY_WEIGHT_CENTI_KG;
use crate::energy::duration_minutes;
use crate::energy::estimate_calories;
use crate::energy::spec_calories;
use crate::energy::spec_duration_minutes;

verus! {

/// The body weight used for the estimate: the recorded one, or the
/// default when none is on record.
pub open spec fn spec_body_weight(weight_centi_kg: Option<u32>) -> int {
    if weight_centi_kg is Some {
        weight_centi_kg.unwrap() as int
    } else {
        DEFAULT_BODY_WEIGHT_CENTI_KG as int
    }
}

/// Everything a workout finish decides.
pub struct FinishDecision {
    pub duration_minutes: i64,
    pub calories_burned: i128,
    pub badges: Vec<Badge>,
}

/// Decides a workout finish: the duration from the timestamps (seconds),
/// the calorie estimate from duration, volume and body weight, and the
/// badges from volume, duration and set count.
pub fn finish_workout_decision(
    start_secs: Option<i64>,
    end_secs: i64,
    volume_centi_kg: u64,
    body_weight_centi_kg: Option<u32>,
    set_count: u64,
) -> (r: FinishDecision)
    ensures
        r.duration_minutes == spec_duration_minutes(start_secs, end_secs),
        r.calories_burned == spec_calories(
            spec_duration_minutes(start_secs, end_secs),
            volume_centi_kg as int,
            spec_body_weight(body_weight_centi_kg),
        ),
        r.badges@ == spec_badges(
            volume_centi_kg as int,
            spec_duration_minutes(start_secs, end_secs),
            set_count as int,
        ),
{
    let duration = duration_minutes(start_secs, end_secs);
    let weight = match body_weight_centi_kg {
        Some(w) => w,
        None => DEFAULT_BODY_WEIGHT_CENTI_KG,
    };
    let calories = estimate_calories(duration, volume_centi_kg, weight);
    let badges = determine_badges(volume_centi_kg, duration, set_count);
    FinishDecision { duration_minutes: duration, calories_burned: calories, badges }
}

} // verus!
