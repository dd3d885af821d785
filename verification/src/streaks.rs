//! Activity-streak calculation.
//!
//! The input is the list of distinct calendar days (as day numbers) on
//! which the user logged at least one set, sorted ascending.  Walking the
//! days in order, a day exactly one after its predecessor extends the
//! running streak and any gap resets it to one; the maximum value the
//! counter reaches is the maximum streak.  The current streak is the final
//! counter value if the most recent active day is at most one day before
//! today, and zero otherwise.  No active days yield zero for both.

use vstd::prelude::*;

verus! {

/// Current and maximum streak lengths, in days.
#[derive(Clone, Copy, Debug, PartialEq, Eq, Structural)]
pub struct StreakSummary {
    pub current_streak: u64,
    pub max_streak: u64,
}

/// The days are strictly ascending (sorted and duplicate-free).
pub open spec fn strictly_increasing(s: Seq<i64>) -> bool {
    forall|i: int, j: int| 0 <= i < j < s.len() ==> s[i] < s[j]
}

/// Length of the streak of consecutive days ending at position `i`.
pub open spec fn run_length(s: Seq<i64>, i: int) -> int
    recommends
        0 <= i < s.len(),
    decreases i,
{
    if i <= 0 {
        1
    } else if s[i - 1] == s[i] - 1 {
        1 + run_length(s, i - 1)
    } else {
        1
    }
}

/// The longest streak among those ending at positions `0..=i`.
pub open spec fn longest_run(s: Seq<i64>, i: int) -> int
    recommends
        0 <= i < s.len(),
    decreases i,
{
    if i <= 0 {
        run_length(s, 0)
    } else if run_length(s, i) > longest_run(s, i - 1) {
        run_length(s, i)
    } else {
        longest_run(s, i - 1)
    }
}

/// The maximum streak over all active days (0 when there are none).
pub open spec fn spec_max_streak(s: Seq<i64>) -> int {
    if s.len() == 0 {
        0
    } else {
        longest_run(s, s.len() - 1)
    }
}

/// The current streak: the length of the streak ending at the most recent
/// active day, provided that day is today or yesterday (0 otherwise or when
/// there are no active days).
pub open spec fn spec_current_streak(s: Seq<i64>, today: int) -> int {
    if s.len() == 0 {
        0
    } else if today - s.last() <= 1 {
        run_length(s, s.len() - 1)
    } else {
        0
    }
}

/// Computes the current and maximum activity streaks from the strictly
/// ascending day numbers of the user's active days and today's day number.
pub fn compute_streaks(days: &Vec<i64>, today: i64) -> (r: StreakSummary)
    requires
        strictly_increasing(days@),
    ensures
        r.current_streak == spec_current_streak(days@, today as int),
        r.max_streak == spec_max_streak(days@),
{
    let n = days.len();
    if n == 0 {
        return StreakSummary { current_streak: 0, max_streak: 0 };
    }
    let mut run: u64 = 1;
    let mut best: u64 = 1;
    let mut i: usize = 1;
    while i < n
        invariant
            1 <= i <= n == days.len(),
            run == run_length(days@, i - 1),
            best == longest_run(days@, i - 1),
            run <= i,
            best <= i,
        decreases n - i,
    {
        if (days[i] as i128) == (days[i - 1] as i128) + 1 {
            run = run + 1;
        } else {
            run = 1;
        }
        if run > best {
            best = run;
        }
        i = i + 1;
    }
    let current: u64 = if (today as i128) - (days[n - 1] as i128) <= 1 {
        run
    } else {
        0
    };
    StreakSummary { current_streak: current, max_streak: best }
}

} // verus!
