//! Badge awarding.
//!
//! When a workout is finished its aggregate statistics are held against a
//! fixed set of threshold rules.  Volume thresholds award the highest
//! matching tier only; a long workout earns "Marathoner" while a short and
//! dense one earns "Speed Demon"; a workout of many sets earns "Volume
//! Warrior" independently.  Earned badges are recorded in an append-only
//! ledger keyed by user, workout and badge name; recording the same key
//! twice is a no-op, so finishing the same workout twice never duplicates an
//! award.

use vstd::prelude::*;

verus! {

/// Weight volume, in hundredths of a kilogram, at which "Titan Volume" is earned.
pub const TITAN_VOLUME_CENTI_KG: u64 = 1_000_000;

/// Weight volume, in hundredths of a kilogram, at which "Heavy Lifter" is earned.
pub const HEAVY_LIFTER_CENTI_KG: u64 = 500_000;

/// Weight volume, in hundredths of a kilogram, that "Speed Demon" must exceed.
pub const SPEED_DEMON_CENTI_KG: u64 = 200_000;

/// Duration, in minutes, at which "Marathoner" is earned.
pub const MARATHONER_MINUTES: i64 = 90;

/// Duration, in minutes, at or under which "Speed Demon" can be earned.
pub const SPEED_DEMON_MINUTES: i64 = 30;

/// Set count at which "Volume Warrior" is earned.
pub const VOLUME_WARRIOR_SETS: u64 = 20;

/// One of the badges a finished workout can earn.
#[derive(Clone, Copy, Debug, PartialEq, Eq, Structural)]
pub enum Badge {
    TitanVolume,
    HeavyLifter,
    Marathoner,
    SpeedDemon,
    VolumeWarrior,
}

/// The display name of a badge.
pub open spec fn spec_badge_name(b: Badge) -> Seq<char> {
    match b {
        Badge::TitanVolume => "Titan Volume"@,
        Badge::HeavyLifter => "Heavy Lifter"@,
        Badge::Marathoner => "Marathoner"@,
        Badge::SpeedDemon => "Speed Demon"@,
        Badge::VolumeWarrior => "Volume Warrior"@,
    }
}

/// Returns the display name of a badge.
pub fn badge_name(b: Badge) -> (s: String)
    ensures
        s@ == spec_badge_name(b),
{
    match b {
        Badge::TitanVolume => String::from_str("Titan Volume"),
        Badge::HeavyLifter => String::from_str("Heavy Lifter"),
        Badge::Marathoner => String::from_str("Marathoner"),
        Badge::SpeedDemon => String::from_str("Speed Demon"),
        Badge::VolumeWarrior => String::from_str("Volume Warrior"),
    }
}

/// The badges a finished workout earns, in the order they are awarded:
/// the highest matching volume tier, then the duration badge, then the
/// set-count badge.
pub open spec fn spec_badges(volume_centi_kg: int, duration_minutes: int, set_count: int) -> Seq<
    Badge,
> {
    let volume_tier = if volume_centi_kg >= TITAN_VOLUME_CENTI_KG {
        seq![Badge::TitanVolume]
    } else if volume_centi_kg >= HEAVY_LIFTER_CENTI_KG {
        seq![Badge::HeavyLifter]
    } else {
        Seq::empty()
    };
    let pace = if duration_minutes >= MARATHONER_MINUTES {
        seq![Badge::Marathoner]
    } else if duration_minutes <= SPEED_DEMON_MINUTES && volume_centi_kg > SPEED_DEMON_CENTI_KG {
        seq![Badge::SpeedDemon]
    } else {
        Seq::empty()
    };
    let sets = if set_count >= VOLUME_WARRIOR_SETS {
        seq![Badge::VolumeWarrior]
    } else {
        Seq::empty()
    };
    volume_tier + pace + sets
}

/// Applies the badge threshold rules to a finished workout's aggregate
/// volume (hundredths of a kilogram), duration (minutes) and set count.
pub fn determine_badges(volume_centi_kg: u64, duration_minutes: i64, set_count: u64) -> (r: Vec<
    Badge,
>)
    ensures
        r@ == spec_badges(volume_centi_kg as int, duration_minutes as int, set_count as int),
{
    let mut r: Vec<Badge> = Vec::new();
    if volume_centi_kg >= TITAN_VOLUME_CENTI_KG {
        r.push(Badge::TitanVolume);
    } else if volume_centi_kg >= HEAVY_LIFTER_CENTI_KG {
        r.push(Badge::HeavyLifter);
    }
    if duration_minutes >= MARATHONER_MINUTES {
        r.push(Badge::Marathoner);
    } else if duration_minutes <= SPEED_DEMON_MINUTES && volume_centi_kg > SPEED_DEMON_CENTI_KG {
        r.push(Badge::SpeedDemon);
    }
    if set_count >= VOLUME_WARRIOR_SETS {
        r.push(Badge::VolumeWarrior);
    }
    proof {
        assert(r@ =~= spec_badges(
            volume_centi_kg as int,
            duration_minutes as int,
            set_count as int,
        ));
    }
    r
}

/// The two volume tiers are mutually exclusive, and so are the two pace
/// badges: no workout earns both "Titan Volume" and "Heavy Lifter", nor both
/// "Marathoner" and "Speed Demon".
pub proof fn lemma_badge_tiers_exclusive(volume_centi_kg: int, duration_minutes: int, set_count: int)
    ensures
        !(spec_badges(volume_centi_kg, duration_minutes, set_count).contains(Badge::TitanVolume)
            && spec_badges(volume_centi_kg, duration_minutes, set_count).contains(
            Badge::HeavyLifter,
        )),
        !(spec_badges(volume_centi_kg, duration_minutes, set_count).contains(Badge::Marathoner)
            && spec_badges(volume_centi_kg, duration_minutes, set_count).contains(
            Badge::SpeedDemon,
        )),
{
    let s = spec_badges(volume_centi_kg, duration_minutes, set_count);
    assert forall|i: int| 0 <= i < s.len() implies (s[i] == Badge::TitanVolume ==> !s.contains(
        Badge::HeavyLifter,
    )) && (s[i] == Badge::Marathoner ==> !s.contains(Badge::SpeedDemon)) by {
        if s.contains(Badge::HeavyLifter) || s.contains(Badge::SpeedDemon) {
        }
    }
}

/// One recorded badge award: the key of the uniqueness invariant.
#[derive(Clone, Copy, Debug, PartialEq, Eq, Structural)]
pub struct BadgeAward {
    pub user_id: u128,
    pub workout_id: u128,
    pub badge: Badge,
}

/// An append-only ledger of badge awards with at most one award per
/// (user, workout, badge) key.
pub struct AwardLedger {
    awards: Vec<BadgeAward>,
}

impl View for AwardLedger {
    type V = Seq<BadgeAward>;

    closed spec fn view(&self) -> Seq<BadgeAward> {
        self.awards@
    }
}

/// The ledger that results from recording one award: unchanged when the key
/// is already present, extended by it otherwise.
pub open spec fn spec_record(s: Seq<BadgeAward>, a: BadgeAward) -> Seq<BadgeAward> {
    if s.contains(a) {
        s
    } else {
        s.push(a)
    }
}

/// The ledger that results from recording, in order, one award per badge of
/// `badges` for the given user and workout.
pub open spec fn spec_record_all(
    s: Seq<BadgeAward>,
    user_id: u128,
    workout_id: u128,
    badges: Seq<Badge>,
) -> Seq<BadgeAward>
    decreases badges.len(),
{
    if badges.len() == 0 {
        s
    } else {
        spec_record_all(
            spec_record(s, BadgeAward { user_id, workout_id, badge: badges.first() }),
            user_id,
            workout_id,
            badges.drop_first(),
        )
    }
}

impl AwardLedger {
    /// No two recorded awards share the (user, workout, badge) key.
    pub open spec fn well_formed(&self) -> bool {
        forall|i: int, j: int| 0 <= i < j < self@.len() ==> self@[i] != self@[j]
    }

    /// Creates an empty ledger.
    pub fn new() -> (r: AwardLedger)
        ensures
            r@ == Seq::<BadgeAward>::empty(),
            r.well_formed(),
    {
        AwardLedger { awards: Vec::new() }
    }

    /// The number of recorded awards.
    pub fn len(&self) -> (n: usize)
        ensures
            n == self@.len(),
    {
        self.awards.len()
    }

    /// Returns the award at the given position.
    pub fn get(&self, i: usize) -> (a: BadgeAward)
        requires
            i < self@.len(),
        ensures
            a == self@[i as int],
    {
        self.awards[i]
    }

    /// Whether an award with this key has been recorded.
    pub fn contains_award(&self, a: &BadgeAward) -> (r: bool)
        ensures
            r == self@.contains(*a),
    {
        let mut i: usize = 0;
        while i < self.awards.len()
            invariant
                i <= self.awards.len(),
                forall|k: int| 0 <= k < i ==> self.awards@[k] != *a,
            decreases self.awards.len() - i,
        {
            if self.awards[i] == *a {
                return true;
            }
            i = i + 1;
        }
        false
    }

    /// Records one award; a duplicate of an already-recorded key is a no-op.
    pub fn record_award(&mut self, a: BadgeAward)
        requires
            old(self).well_formed(),
        ensures
            final(self)@ == spec_record(old(self)@, a),
            final(self).well_formed(),
    {
        if !self.contains_award(&a) {
            self.awards.push(a);
        }
    }

    /// Records one award per badge for a finished workout of the given user;
    /// keys already present are left untouched.
    pub fn record_workout_badges(&mut self, user_id: u128, workout_id: u128, badges: &Vec<Badge>)
        requires
            old(self).well_formed(),
        ensures
            final(self)@ == spec_record_all(old(self)@, user_id, workout_id, badges@),
            final(self).well_formed(),
    {
        let mut i: usize = 0;
        proof {
            assert(badges@.skip(0) =~= badges@);
        }
        while i < badges.len()
            invariant
                i <= badges.len(),
                self.well_formed(),
                spec_record_all(self@, user_id, workout_id, badges@.skip(i as int))
                    == spec_record_all(old(self)@, user_id, workout_id, badges@),
            decreases badges.len() - i,
        {
            proof {
                assert(badges@.skip(i as int).drop_first() =~= badges@.skip(i + 1));
                assert(badges@.skip(i as int).first() == badges@[i as int]);
            }
            self.record_award(
                BadgeAward { user_id, workout_id, badge: badges[i] },
            );
            i = i + 1;
        }
        proof {
            assert(badges@.skip(badges@.len() as int) =~= Seq::<Badge>::empty());
        }
    }
}

/// Recording an award leaves every already-recorded award in place and at
/// its position: the ledger is append-only.
pub proof fn lemma_record_preserves_prefix(s: Seq<BadgeAward>, a: BadgeAward)
    ensures
        forall|i: int| 0 <= i < s.len() ==> spec_record(s, a)[i] == s[i],
        s.len() <= spec_record(s, a).len(),
{
}

/// Every key already present stays present after recording a batch, and
/// every badge of the batch is present afterwards.
pub proof fn lemma_record_all_contains(
    s: Seq<BadgeAward>,
    user_id: u128,
    workout_id: u128,
    badges: Seq<Badge>,
)
    ensures
        forall|a: BadgeAward|
            s.contains(a) ==> #[trigger] spec_record_all(s, user_id, workout_id, badges).contains(
                a,
            ),
        forall|k: int|
            0 <= k < badges.len() ==> spec_record_all(s, user_id, workout_id, badges).contains(
                BadgeAward { user_id, workout_id, badge: badges[k] },
            ),
    decreases badges.len(),
{
    if badges.len() > 0 {
        let key = BadgeAward { user_id, workout_id, badge: badges.first() };
        let s1 = spec_record(s, key);
        let rest = badges.drop_first();
        let result = spec_record_all(s1, user_id, workout_id, rest);
        assert(spec_record_all(s, user_id, workout_id, badges) == result);
        assert forall|a: BadgeAward| s.contains(a) implies s1.contains(a) by {
            let i = choose|i: int| 0 <= i < s.len() && s[i] == a;
            assert(s1[i] == a);
        }
        assert(s1.contains(key)) by {
            if !s.contains(key) {
                assert(s1.last() == key);
            }
        }
        lemma_record_all_contains(s1, user_id, workout_id, rest);
        assert forall|a: BadgeAward| s.contains(a) implies result.contains(a) by {
            assert(s1.contains(a));
        }
        assert forall|k: int| 0 <= k < badges.len() implies result.contains(
            BadgeAward { user_id, workout_id, badge: badges[k] },
        ) by {
            if k == 0 {
                assert(result.contains(key)) by {
                    assert(s1.contains(key));
                }
            } else {
                assert(result.contains(BadgeAward { user_id, workout_id, badge: rest[k - 1] }));
                assert(rest[k - 1] == badges[k]);
            }
        }
    }
}

/// Recording a batch whose every key is already present changes nothing.
pub proof fn lemma_record_all_absorbed(
    s: Seq<BadgeAward>,
    user_id: u128,
    workout_id: u128,
    badges: Seq<Badge>,
)
    requires
        forall|k: int|
            0 <= k < badges.len() ==> s.contains(
                BadgeAward { user_id, workout_id, badge: badges[k] },
            ),
    ensures
        spec_record_all(s, user_id, workout_id, badges) == s,
    decreases badges.len(),
{
    if badges.len() > 0 {
        assert(s.contains(BadgeAward { user_id, workout_id, badge: badges.first() }));
        assert forall|k: int| 0 <= k < badges.drop_first().len() implies s.contains(
            BadgeAward { user_id, workout_id, badge: badges.drop_first()[k] },
        ) by {
            assert(badges.drop_first()[k] == badges[k + 1]);
        }
        lemma_record_all_absorbed(s, user_id, workout_id, badges.drop_first());
    }
}

/// Finishing the same workout twice awards nothing new: recording the same
/// batch of badges a second time leaves the ledger exactly as after the
/// first recording.
pub proof fn lemma_record_all_idempotent(
    s: Seq<BadgeAward>,
    user_id: u128,
    workout_id: u128,
    badges: Seq<Badge>,
)
    ensures
        spec_record_all(
            spec_record_all(s, user_id, workout_id, badges),
            user_id,
            workout_id,
            badges,
        ) == spec_record_all(s, user_id, workout_id, badges),
{
    let once = spec_record_all(s, user_id, workout_id, badges);
    lemma_record_all_contains(s, user_id, workout_id, badges);
    lemma_record_all_absorbed(once, user_id, workout_id, badges);
}

} // verus!
