//! Energy-expenditure estimation for a finished workout.
//!
//! The estimate is a function of the workout's duration, its total lifted
//! volume, and the user's body weight.  An intensity factor (volume per
//! minute, scaled by one hundred) raises a base MET of 3.0 up to a ceiling
//! of 8.0; calories are MET times body weight times duration in hours,
//! truncated toward zero.  A workout without a recorded start time defaults
//! to sixty minutes; a duration of zero or less fixes the intensity factor
//! at 1.0 (so the MET at 4.0).  All arithmetic is exact: weights are in
//! hundredths of a kilogram, and every division is a single final
//! truncation of an integer quotient.

use vstd::prelude::*;

use crate::num::div_trunc;
use crate::num::div_trunc_i128;

verus! {

/// Body weight assumed when none is on record, in hundredths of a kilogram.
pub const DEFAULT_BODY_WEIGHT_CENTI_KG: u32 = 7500;

/// Duration assumed when the workout has no recorded start time, in minutes.
pub const DEFAULT_DURATION_MINUTES: i64 = 60;

/// Duration of a workout in whole minutes: the difference of the two
/// timestamps (seconds) truncated to minutes, or the default when no start
/// time was recorded.
pub open spec fn spec_duration_minutes(start_secs: Option<i64>, end_secs: i64) -> int {
    match start_secs {
        Some(s) => div_trunc(end_secs - s, 60),
        None => DEFAULT_DURATION_MINUTES as int,
    }
}

/// Estimated calories burned, truncated toward zero.
///
/// For a positive duration `d` the exact value is
/// `min(3 + v/(10000 d), 8) * w * d / 6000` with volume `v` and body weight
/// `w` both in hundredths of a kilogram; the three branches below are that
/// value with the division carried out last, split on whether the MET
/// ceiling of 8.0 is reached.  For a duration of zero or less the MET is
/// fixed at 4.0.
pub open spec fn spec_calories(
    duration_minutes: int,
    volume_centi_kg: int,
    weight_centi_kg: int,
) -> int {
    if duration_minutes > 0 && volume_centi_kg < 50000 * duration_minutes {
        div_trunc((30000 * duration_minutes + volume_centi_kg) * weight_centi_kg, 60000000)
    } else if duration_minutes > 0 {
        div_trunc(8 * weight_centi_kg * duration_minutes, 6000)
    } else {
        div_trunc(4 * weight_centi_kg * duration_minutes, 6000)
    }
}

/// Duration of a workout in whole minutes, from its start time (if any) and
/// its end time, both in seconds.
pub fn duration_minutes(start_secs: Option<i64>, end_secs: i64) -> (d: i64)
    ensures
        d == spec_duration_minutes(start_secs, end_secs),
{
    match start_secs {
        Some(s) => {
            let diff: i128 = (end_secs as i128) - (s as i128);
            let q = div_trunc_i128(diff, 60);
            proof {
                crate::num::lemma_div_trunc_bounds(diff as int, 60);
            }
            q as i64
        },
        None => DEFAULT_DURATION_MINUTES,
    }
}

/// Estimates the calories burned by a workout of the given duration
/// (minutes), total volume and body weight (both hundredths of a
/// kilogram).  The widened return type keeps the estimate total: it is
/// exact for every input, and the caller clamps it to its storage type.
pub fn estimate_calories(duration_minutes: i64, volume_centi_kg: u64, weight_centi_kg: u32) -> (cal:
    i128)
    ensures
        cal == spec_calories(duration_minutes as int, volume_centi_kg as int, weight_centi_kg as int),
{
    let d: i128 = duration_minutes as i128;
    let v: i128 = volume_centi_kg as i128;
    let w: i128 = weight_centi_kg as i128;
    if d > 0 && v < 50000 * d {
        let x: i128 = 30000 * d + v;
        proof {
            crate::num::lemma_mul_magnitude(
                x as int,
                w as int,
                1000000000000000000000000,
                4294967296,
            );
        }
        div_trunc_i128(x * w, 60000000)
    } else if d > 0 {
        let x: i128 = 8 * w;
        proof {
            crate::num::lemma_mul_magnitude(x as int, d as int, 40000000000, 9223372036854775808);
        }
        div_trunc_i128(x * d, 6000)
    } else {
        let x: i128 = 4 * w;
        proof {
            crate::num::lemma_mul_magnitude(x as int, d as int, 40000000000, 9223372036854775808);
        }
        div_trunc_i128(x * d, 6000)
    }
}

} // verus!
