//! Daily nutrition log accumulation.
//!
//! One log row exists per user and day.  Logging against a day that
//! already has a row adds the new calories to the stored ones and adds
//! each macro with absent values counting as zero; logging against a
//! fresh day stores the request as it is.  This mirrors an idempotent
//! keyed upsert whose update clause accumulates.

use vstd::prelude::*;

verus! {

/// One nutrition log request: calories and optional macros, in grams.
#[derive(Clone, Copy, Debug, PartialEq, Eq, Structural)]
pub struct LogNutritionRequest {
    pub calories_in: i32,
    pub protein_g: Option<i32>,
    pub carbs_g: Option<i32>,
    pub fats_g: Option<i32>,
}

/// The stored totals of one user and day.
#[derive(Clone, Copy, Debug, PartialEq, Eq, Structural)]
pub struct NutritionTotals {
    pub calories_in: i32,
    pub protein_g: Option<i32>,
    pub carbs_g: Option<i32>,
    pub fats_g: Option<i32>,
}

/// An optional count with absence standing for zero.
pub open spec fn zero_if_absent(x: Option<i32>) -> int {
    if x is Some {
        x.unwrap() as int
    } else {
        0
    }
}

/// Folds a request into a day's stored totals: the request itself on a
/// fresh day; otherwise calories add up and each macro adds up with
/// absent values counting as zero.  The preconditions are the machine
/// limits that the sums fit their type.
pub fn log_nutrition_upsert(existing: Option<NutritionTotals>, req: &LogNutritionRequest) -> (r:
    NutritionTotals)
    requires
        existing is Some ==> i32::MIN <= existing.unwrap().calories_in + req.calories_in
            <= i32::MAX,
        existing is Some ==> i32::MIN <= zero_if_absent(existing.unwrap().protein_g)
            + zero_if_absent(req.protein_g) <= i32::MAX,
        existing is Some ==> i32::MIN <= zero_if_absent(existing.unwrap().carbs_g)
            + zero_if_absent(req.carbs_g) <= i32::MAX,
        existing is Some ==> i32::MIN <= zero_if_absent(existing.unwrap().fats_g)
            + zero_if_absent(req.fats_g) <= i32::MAX,
    ensures
        existing is None ==> r == (NutritionTotals {
            calories_in: req.calories_in,
            protein_g: req.protein_g,
            carbs_g: req.carbs_g,
            fats_g: req.fats_g,
        }),
        existing is Some ==> r.calories_in == existing.unwrap().calories_in + req.calories_in,
        existing is Some ==> r.protein_g == (Some(
            (zero_if_absent(existing.unwrap().protein_g) + zero_if_absent(req.protein_g)) as i32,
        )),
        existing is Some ==> r.carbs_g == (Some(
            (zero_if_absent(existing.unwrap().carbs_g) + zero_if_absent(req.carbs_g)) as i32,
        )),
        existing is Some ==> r.fats_g == (Some(
            (zero_if_absent(existing.unwrap().fats_g) + zero_if_absent(req.fats_g)) as i32,
        )),
{
    match existing {
        None => NutritionTotals {
            calories_in: req.calories_in,
            protein_g: req.protein_g,
            carbs_g: req.carbs_g,
            fats_g: req.fats_g,
        },
        Some(e) => NutritionTotals {
            calories_in: e.calories_in + req.calories_in,
            protein_g: Some(opt_sum(e.protein_g, req.protein_g)),
            carbs_g: Some(opt_sum(e.carbs_g, req.carbs_g)),
            fats_g: Some(opt_sum(e.fats_g, req.fats_g)),
        },
    }
}

/// Adds two optional counts with absence standing for zero.
fn opt_sum(a: Option<i32>, b: Option<i32>) -> (r: i32)
    requires
        i32::MIN <= zero_if_absent(a) + zero_if_absent(b) <= i32::MAX,
    ensures
        r == zero_if_absent(a) + zero_if_absent(b),
{
    let x = match a {
        Some(v) => v,
        None => 0,
    };
    let y = match b {
        Some(v) => v,
        None => 0,
    };
    x + y
}

} // verus!
