//! Profile metrics: basal metabolic rate and total daily energy expenditure.
//!
//! BMR follows the Mifflin-St Jeor formula `10*weight + 6.25*height -
//! 5*age + S`, with `S` of +5 for the sex category `male` and -161 for any
//! other value (the female branch is the documented fallback, never an
//! error).  Age in whole years is the day difference from the birth date
//! divided by 365, truncated.  TDEE multiplies the BMR by an activity
//! factor, with 1.2 as the safe default for an unrecognized level.  Either
//! figure is produced only when every input it needs is on record.
//! Weights are in hundredths of a kilogram and heights in hundredths of a
//! centimeter, so both formulas reduce to one truncated integer quotient.

use vstd::prelude::*;

use crate::dates::DateYmd;
use crate::dates::day_number_of;
use crate::num::div_trunc;
use crate::num::div_trunc_i128;

verus! {

/// The physical attributes a user may have on record.
pub struct PhysicalProfile {
    pub height_centi_cm: Option<u32>,
    pub weight_centi_kg: Option<u32>,
    pub sex: Option<String>,
    pub birth_date: Option<DateYmd>,
    pub activity_level: Option<String>,
}

/// A profile update: present fields replace the stored ones, absent fields
/// leave them untouched.
pub struct UpdateStatsRequest {
    pub height_centi_cm: Option<u32>,
    pub weight_centi_kg: Option<u32>,
    pub sex: Option<String>,
    pub birth_date: Option<DateYmd>,
    pub activity_level: Option<String>,
}

/// The derived metrics, each present only when its inputs are.
#[derive(Clone, Copy, Debug, PartialEq, Eq, Structural)]
pub struct ProfileMetrics {
    pub bmr: Option<i64>,
    pub tdee: Option<i64>,
}

/// The additive sex term of the Mifflin-St Jeor formula: +5 for `male`,
/// -161 for every other value.
pub open spec fn spec_sex_adjustment(sex: Seq<char>) -> int {
    if sex == "male"@ {
        5
    } else {
        -161
    }
}

/// BMR in whole kilocalories per day.  With weight and height in
/// hundredths of their units, `10*w + 6.25*h - 5*age + S` equals
/// `(8*w + 5*h - 400*age + 80*S) / 80`, truncated toward zero.
pub open spec fn spec_bmr(
    weight_centi_kg: int,
    height_centi_cm: int,
    age_years: int,
    adjustment: int,
) -> int {
    div_trunc(8 * weight_centi_kg + 5 * height_centi_cm - 400 * age_years + 80 * adjustment, 80)
}

/// Age in whole years: the day difference divided by 365, truncated
/// (a deliberate approximation, not leap-year accurate).
pub open spec fn spec_age_years(birth_day_number: int, today_day_number: int) -> int {
    div_trunc(today_day_number - birth_day_number, 365)
}

/// The activity multiplier scaled by 40, so that every level is an
/// integer: sedentary 1.2, light 1.375, moderate 1.55, active 1.725,
/// athlete 1.9, and 1.2 again for an unrecognized level.
pub open spec fn spec_activity_factor_x40(level: Seq<char>) -> int {
    if level == "sedentary"@ {
        48
    } else if level == "light"@ {
        55
    } else if level == "moderate"@ {
        62
    } else if level == "active"@ {
        69
    } else if level == "athlete"@ {
        76
    } else {
        48
    }
}

/// TDEE in whole kilocalories per day: BMR times the activity factor,
/// truncated toward zero.
pub open spec fn spec_tdee(bmr: int, factor_x40: int) -> int {
    div_trunc(bmr * factor_x40, 40)
}

/// The BMR a profile yields: present exactly when weight, height, birth
/// date and sex are all on record and both the birth date and today are
/// calendar dates chrono accepts.
pub open spec fn spec_profile_bmr(p: PhysicalProfile, today: DateYmd) -> Option<int> {
    if p.weight_centi_kg is Some && p.height_centi_cm is Some && p.birth_date is Some
        && p.sex is Some && day_number_of(
        p.birth_date.unwrap().year,
        p.birth_date.unwrap().month,
        p.birth_date.unwrap().day,
    ) is Some && day_number_of(today.year, today.month, today.day) is Some {
        Some(
            spec_bmr(
                p.weight_centi_kg.unwrap() as int,
                p.height_centi_cm.unwrap() as int,
                spec_age_years(
                    day_number_of(
                        p.birth_date.unwrap().year,
                        p.birth_date.unwrap().month,
                        p.birth_date.unwrap().day,
                    ).unwrap() as int,
                    day_number_of(today.year, today.month, today.day).unwrap() as int,
                ),
                spec_sex_adjustment(p.sex.unwrap()@),
            ),
        )
    } else {
        None
    }
}

/// The TDEE a profile yields: present exactly when the BMR is and an
/// activity level is on record.
pub open spec fn spec_profile_tdee(p: PhysicalProfile, today: DateYmd) -> Option<int> {
    if spec_profile_bmr(p, today) is Some && p.activity_level is Some {
        Some(
            spec_tdee(
                spec_profile_bmr(p, today).unwrap(),
                spec_activity_factor_x40(p.activity_level.unwrap()@),
            ),
        )
    } else {
        None
    }
}

/// Returns the additive sex term of the Mifflin-St Jeor formula.
pub fn sex_adjustment(sex: &String) -> (r: i64)
    ensures
        r == spec_sex_adjustment(sex@),
{
    let male = String::from_str("male");
    if *sex == male {
        5
    } else {
        -161
    }
}

/// Returns the activity multiplier of a level, scaled by 40.
pub fn activity_factor_x40(level: &String) -> (r: i64)
    ensures
        r == spec_activity_factor_x40(level@),
{
    if *level == String::from_str("sedentary") {
        48
    } else if *level == String::from_str("light") {
        55
    } else if *level == String::from_str("moderate") {
        62
    } else if *level == String::from_str("active") {
        69
    } else if *level == String::from_str("athlete") {
        76
    } else {
        48
    }
}

/// Computes the BMR from weight (hundredths of a kilogram), height
/// (hundredths of a centimeter), age in whole years and the sex category.
pub fn compute_bmr(weight_centi_kg: u32, height_centi_cm: u32, age_years: i32, sex: &String) -> (r:
    i64)
    ensures
        r == spec_bmr(
            weight_centi_kg as int,
            height_centi_cm as int,
            age_years as int,
            spec_sex_adjustment(sex@),
        ),
{
    let adjustment = sex_adjustment(sex);
    let n: i64 = 8 * (weight_centi_kg as i64) + 5 * (height_centi_cm as i64) - 400 * (
    age_years as i64) + 80 * adjustment;
    let q = div_trunc_i128(n as i128, 80);
    proof {
        crate::num::lemma_div_trunc_bounds(n as int, 80);
    }
    q as i64
}

/// Computes the TDEE from a BMR and an activity level.  The one
/// precondition is the machine limit that the result fit the return type;
/// it holds for every BMR the profile calculator can produce.
pub fn compute_tdee(bmr: i64, activity_level: &String) -> (r: i64)
    requires
        i64::MIN <= spec_tdee(bmr as int, spec_activity_factor_x40(activity_level@)) <= i64::MAX,
    ensures
        r == spec_tdee(bmr as int, spec_activity_factor_x40(activity_level@)),
{
    let factor = activity_factor_x40(activity_level);
    proof {
        crate::num::lemma_mul_magnitude(bmr as int, factor as int, 0x8000_0000_0000_0000, 76);
    }
    let product: i128 = (bmr as i128) * (factor as i128);
    let q = div_trunc_i128(product, 40);
    proof {
        crate::num::lemma_div_trunc_bounds(product as int, 40);
    }
    q as i64
}

/// Merges a stats update into a profile: each present field replaces the
/// stored value, each absent field keeps it.
pub fn apply_stats_update(p: &mut PhysicalProfile, u: &UpdateStatsRequest)
    ensures
        final(p).height_centi_cm == if u.height_centi_cm is Some {
            u.height_centi_cm
        } else {
            old(p).height_centi_cm
        },
        final(p).weight_centi_kg == if u.weight_centi_kg is Some {
            u.weight_centi_kg
        } else {
            old(p).weight_centi_kg
        },
        final(p).sex == if u.sex is Some {
            u.sex
        } else {
            old(p).sex
        },
        final(p).birth_date == if u.birth_date is Some {
            u.birth_date
        } else {
            old(p).birth_date
        },
        final(p).activity_level == if u.activity_level is Some {
            u.activity_level
        } else {
            old(p).activity_level
        },
{
    if let Some(h) = u.height_centi_cm {
        p.height_centi_cm = Some(h);
    }
    if let Some(w) = u.weight_centi_kg {
        p.weight_centi_kg = Some(w);
    }
    if let Some(s) = &u.sex {
        p.sex = Some(s.clone());
    }
    if let Some(b) = u.birth_date {
        p.birth_date = Some(b);
    }
    if let Some(a) = &u.activity_level {
        p.activity_level = Some(a.clone());
    }
}

/// Computes the derived metrics of a profile as of today's date: the BMR
/// when all four of weight, height, birth date and sex are on record, and
/// the TDEE when additionally an activity level is.
pub fn compute_profile_metrics(p: &PhysicalProfile, today: DateYmd) -> (r: ProfileMetrics)
    ensures
        r.bmr is Some <==> spec_profile_bmr(*p, today) is Some,
        r.bmr is Some ==> r.bmr.unwrap() == spec_profile_bmr(*p, today).unwrap(),
        r.tdee is Some <==> spec_profile_tdee(*p, today) is Some,
        r.tdee is Some ==> r.tdee.unwrap() == spec_profile_tdee(*p, today).unwrap(),
{
    match (&p.sex, p.weight_centi_kg, p.height_centi_cm, p.birth_date) {
        (Some(sex), Some(weight), Some(height), Some(birth)) => {
            match (crate::dates::day_number(birth), crate::dates::day_number(today)) {
                (Some(birth_day), Some(today_day)) => {
                    let diff: i64 = today_day - birth_day;
                    let age128 = div_trunc_i128(diff as i128, 365);
                    proof {
                        crate::num::lemma_div_trunc_bounds(diff as int, 365);
                        if diff >= 0 {
                            vstd::arithmetic::div_mod::lemma_div_is_ordered(
                                diff as int,
                                4294967296,
                                365,
                            );
                        } else {
                            vstd::arithmetic::div_mod::lemma_div_is_ordered(
                                -(diff as int),
                                4294967296,
                                365,
                            );
                        }
                    }
                    let age: i32 = age128 as i32;
                    let bmr_value = compute_bmr(weight, height, age, sex);
                    let tdee = match &p.activity_level {
                        Some(level) => {
                            proof {
                                crate::num::lemma_div_trunc_bounds(
                                    8 * (weight as int) + 5 * (height as int) - 400 * (age as int)
                                        + 80 * spec_sex_adjustment(sex@),
                                    80,
                                );
                                crate::num::lemma_mul_magnitude(
                                    bmr_value as int,
                                    spec_activity_factor_x40(level@),
                                    100_000_000_000,
                                    76,
                                );
                                crate::num::lemma_div_trunc_bounds(
                                    bmr_value as int * spec_activity_factor_x40(level@),
                                    40,
                                );
                            }
                            Some(compute_tdee(bmr_value, level))
                        },
                        None => None,
                    };
                    ProfileMetrics { bmr: Some(bmr_value), tdee }
                },
                _ => ProfileMetrics { bmr: None, tdee: None },
            }
        },
        _ => ProfileMetrics { bmr: None, tdee: None },
    }
}

} // verus!
