//! Personal-record evaluation.
//!
//! A newly logged set is classified against the full history of the user's
//! prior sets for the same exercise.  It is a one-rep-max record when its
//! weight strictly exceeds every prior weight, and a volume (rep) record when
//! it is not a one-rep-max record, its rep count strictly exceeds the most
//! reps ever performed at its weight or heavier, and it has more than five
//! reps (so that trivial low-rep sets are never flagged).

use vstd::prelude::*;

verus! {

/// One logged set: weight in hundredths of a kilogram, and a rep count.
#[derive(Clone, Copy, Debug, PartialEq, Eq, Structural)]
pub struct SetEntry {
    pub weight_centi_kg: u32,
    pub reps: u32,
}

/// The classification of a newly logged set against prior history.
#[derive(Clone, Copy, Debug, PartialEq, Eq, Structural)]
pub struct SetAssessment {
    pub is_new_one_rep_max: bool,
    pub is_volume_record: bool,
}

/// Greatest weight among the sets, or 0 when there are none.
pub open spec fn max_weight(s: Seq<SetEntry>) -> int
    decreases s.len(),
{
    if s.len() == 0 {
        0
    } else {
        let rest = max_weight(s.drop_last());
        if s.last().weight_centi_kg > rest {
            s.last().weight_centi_kg as int
        } else {
            rest
        }
    }
}

/// Greatest rep count among the sets whose weight is at least `w`,
/// or 0 when there is no such set.
pub open spec fn max_reps_at_or_above(s: Seq<SetEntry>, w: int) -> int
    decreases s.len(),
{
    if s.len() == 0 {
        0
    } else {
        let rest = max_reps_at_or_above(s.drop_last(), w);
        if s.last().weight_centi_kg >= w && s.last().reps > rest {
            s.last().reps as int
        } else {
            rest
        }
    }
}

/// Sum of weight times reps over the sets, in hundredths of a kilogram.
pub open spec fn total_volume(s: Seq<SetEntry>) -> int
    decreases s.len(),
{
    if s.len() == 0 {
        0
    } else {
        total_volume(s.drop_last()) + s.last().weight_centi_kg * s.last().reps
    }
}

/// Classifies a new set against the prior sets of the same user and
/// exercise.  The new set is a one-rep-max record exactly when its weight
/// strictly exceeds the prior maximum; it is a volume record exactly when it
/// is no one-rep-max record, its reps strictly exceed the prior maximum rep
/// count at its weight or heavier, and it has more than five reps.  At most
/// one of the two flags is set.
pub fn evaluate_set(weight_centi_kg: u32, reps: u32, prior: &Vec<SetEntry>) -> (r: SetAssessment)
    ensures
        r.is_new_one_rep_max == (weight_centi_kg > max_weight(prior@)),
        r.is_volume_record == (!r.is_new_one_rep_max
            && reps > max_reps_at_or_above(prior@, weight_centi_kg as int) && reps > 5),
        !(r.is_new_one_rep_max && r.is_volume_record),
{
    let prev_max_weight = prior_max_weight(prior);
    let prev_max_reps = prior_max_reps(prior, weight_centi_kg);
    let is_new_one_rep_max = weight_centi_kg > prev_max_weight;
    let is_volume_record = !is_new_one_rep_max && reps > prev_max_reps && reps > 5;
    SetAssessment { is_new_one_rep_max, is_volume_record }
}

/// Greatest weight ever lifted among the given sets (0 when none).
pub fn prior_max_weight(prior: &Vec<SetEntry>) -> (m: u32)
    ensures
        m == max_weight(prior@),
{
    let mut m: u32 = 0;
    let mut i: usize = 0;
    while i < prior.len()
        invariant
            i <= prior.len(),
            m == max_weight(prior@.take(i as int)),
        decreases prior.len() - i,
    {
        proof {
            assert(prior@.take(i + 1 as int).drop_last() =~= prior@.take(i as int));
        }
        if prior[i].weight_centi_kg > m {
            m = prior[i].weight_centi_kg;
        }
        i = i + 1;
    }
    proof {
        assert(prior@.take(prior@.len() as int) =~= prior@);
    }
    m
}

/// Greatest rep count among the given sets at weight `w` or heavier
/// (0 when there is no such set).
pub fn prior_max_reps(prior: &Vec<SetEntry>, w: u32) -> (m: u32)
    ensures
        m == max_reps_at_or_above(prior@, w as int),
{
    let mut m: u32 = 0;
    let mut i: usize = 0;
    while i < prior.len()
        invariant
            i <= prior.len(),
            m == max_reps_at_or_above(prior@.take(i as int), w as int),
        decreases prior.len() - i,
    {
        proof {
            assert(prior@.take(i + 1 as int).drop_last() =~= prior@.take(i as int));
        }
        if prior[i].weight_centi_kg >= w && prior[i].reps > m {
            m = prior[i].reps;
        }
        i = i + 1;
    }
    proof {
        assert(prior@.take(prior@.len() as int) =~= prior@);
    }
    m
}

/// Total lifted volume of a workout's sets, in hundredths of a kilogram.
pub fn workout_volume(sets: &Vec<SetEntry>) -> (v: u64)
    requires
        total_volume(sets@) <= u64::MAX,
    ensures
        v == total_volume(sets@),
{
    let mut v: u64 = 0;
    let mut i: usize = 0;
    while i < sets.len()
        invariant
            i <= sets.len(),
            v == total_volume(sets@.take(i as int)),
            total_volume(sets@) <= u64::MAX,
        decreases sets.len() - i,
    {
        proof {
            assert(sets@.take(i + 1 as int).drop_last() =~= sets@.take(i as int));
            lemma_total_volume_monotonic(sets@, i + 1 as int);
        }
        let product: u64 = (sets[i].weight_centi_kg as u64) * (sets[i].reps as u64);
        v = v + product;
        i = i + 1;
    }
    proof {
        assert(sets@.take(sets@.len() as int) =~= sets@);
    }
    v
}

/// The volume of any prefix is at most the volume of the whole sequence.
proof fn lemma_total_volume_monotonic(s: Seq<SetEntry>, n: int)
    requires
        0 <= n <= s.len(),
    ensures
        total_volume(s.take(n)) <= total_volume(s),
    decreases s.len() - n,
{
    if n < s.len() {
        lemma_total_volume_monotonic(s, n + 1);
        assert(s.take(n + 1).drop_last() =~= s.take(n));
    } else {
        assert(s.take(n) =~= s);
    }
}

} // verus!
