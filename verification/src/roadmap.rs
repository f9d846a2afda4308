//! Roadmap items and the urgency-scoring formula.
//!
//! Urgency is a weighted sum of four factors, clamped to [0, 1] and rounded
//! to two decimals. The library carries it in hundredths, so an urgency of
//! 0.65 is the integer 65. With day spans `dt = target - today` and
//! `dd = target - start`, the formula in hundredths is
//!
//! ```text
//! urgency = round(clamp(20/dt + 10/dd + 6*complexity + 8*value, 0, 100))
//! ```
//!
//! with rounding half away from zero. A zero-day span would divide by zero;
//! the formula's term then grows without bound and the clamp saturates, so
//! this library treats a zero-day span (target equal to today, or target
//! equal to start) as maximal urgency, 100.

use crate::contributor::Contributor;
use crate::date::Date;
use vstd::prelude::*;

verus! {

/// Weight of the days-until-target factor, in hundredths per day.
pub const TARGET_DATE_FACTOR: u64 = 20;

/// Weight of the project-duration factor, in hundredths per day.
pub const DURATION_FACTOR: u64 = 10;

/// Weight of one complexity point, in hundredths.
pub const COMPLEXITY_FACTOR: u64 = 6;

/// Weight of one value point, in hundredths.
pub const VALUE_FACTOR: u64 = 8;

/// The urgency formula in hundredths, over the raw ratings and the two day
/// spans: `days_to_target` from today to the target date and `duration` from
/// the start date to the target date. A span of zero days saturates the
/// formula, so the result is pinned at 100 there.
pub open spec fn spec_urgency(
    complexity: int,
    value: int,
    days_to_target: int,
    duration: int,
) -> int {
    if days_to_target <= 0 || duration <= 0 {
        100
    } else {
        let rating_part = COMPLEXITY_FACTOR * complexity + VALUE_FACTOR * value;
        let num = TARGET_DATE_FACTOR * duration + DURATION_FACTOR * days_to_target;
        let den = days_to_target * duration;
        let date_part = (2 * num + den) / (2 * den);
        let total = rating_part + date_part;
        if total > 100 {
            100
        } else {
            total
        }
    }
}

/// A unit of plannable work. `urgency` is in hundredths and is always the
/// output of the scoring formula for the other fields.
pub struct RoadmapItem {
    pub name: String,
    pub estimated_complexity: usize,
    pub estimated_value: usize,
    pub start_date: Date,
    pub target_date: Date,
    pub urgency: u64,
    pub contributors: Vec<Contributor>,
}

/// The ranges that a well-formed roadmap record must meet, before any date
/// ordering is considered.
pub open spec fn spec_roadmap_fields_valid(name: Seq<char>, complexity: int, value: int) -> bool {
    name.len() > 0 && 1 <= complexity <= 5 && 1 <= value <= 5
}

/// Checks the field ranges of a roadmap record: a non-empty name and ratings
/// between 1 and 5.
pub fn roadmap_fields_valid(name: &String, estimated_complexity: usize, estimated_value: usize) -> (r:
    bool)
    ensures
        r <==> spec_roadmap_fields_valid(
            name@,
            estimated_complexity as int,
            estimated_value as int,
        ),
{
    name.as_str().unicode_len() > 0 && 1 <= estimated_complexity && estimated_complexity <= 5 && 1
        <= estimated_value && estimated_value <= 5
}

/// Why a date pair was rejected.
#[derive(Clone, Copy, PartialEq, Eq, Structural, Debug)]
pub enum DateValidationError {
    /// The target date lies before the start date.
    TargetBeforeStart,
    /// The target date lies before today.
    TargetBeforeToday,
}

/// Checks the date ordering a roadmap item must meet: the target date may
/// come neither before the start date nor before today. The start-date check
/// is made first.
pub fn validate_dates(start_date: &Date, target_date: &Date, today: &Date) -> (r: Result<
    (),
    DateValidationError,
>)
    requires
        start_date.valid(),
        target_date.valid(),
        today.valid(),
    ensures
        r == Ok::<(), DateValidationError>(()) <==> start_date.spec_day_number()
            <= target_date.spec_day_number() && today.spec_day_number()
            <= target_date.spec_day_number(),
        r == Err::<(), DateValidationError>(DateValidationError::TargetBeforeStart)
            <==> target_date.spec_day_number() < start_date.spec_day_number(),
        r == Err::<(), DateValidationError>(DateValidationError::TargetBeforeToday)
            <==> start_date.spec_day_number() <= target_date.spec_day_number()
            && target_date.spec_day_number() < today.spec_day_number(),
{
    if !start_date.is_on_or_before(target_date) {
        Err(DateValidationError::TargetBeforeStart)
    } else if !today.is_on_or_before(target_date) {
        Err(DateValidationError::TargetBeforeToday)
    } else {
        Ok(())
    }
}

/// Computes an item's urgency in hundredths from its ratings, its date span
/// and today's date.
pub fn calculate_project_urgency(
    estimated_complexity: usize,
    estimated_value: usize,
    start_date: &Date,
    target_date: &Date,
    today: &Date,
) -> (urgency: u64)
    requires
        1 <= estimated_complexity <= 5,
        1 <= estimated_value <= 5,
        start_date.valid(),
        target_date.valid(),
        today.valid(),
        start_date.spec_day_number() <= target_date.spec_day_number(),
        today.spec_day_number() <= target_date.spec_day_number(),
    ensures
        urgency == spec_urgency(
            estimated_complexity as int,
            estimated_value as int,
            target_date.spec_day_number() - today.spec_day_number(),
            target_date.spec_day_number() - start_date.spec_day_number(),
        ),
        urgency <= 100,
{
    let target_n = target_date.day_number();
    let days_to_target = target_n - today.day_number();
    let duration = target_n - start_date.day_number();
    if days_to_target == 0 || duration == 0 {
        return 100;
    }
    let rating_part = COMPLEXITY_FACTOR * (estimated_complexity as u64) + VALUE_FACTOR * (
    estimated_value as u64);
    let num = TARGET_DATE_FACTOR * duration + DURATION_FACTOR * days_to_target;
    assert(days_to_target * duration <= crate::date::MAX_DAY_NUMBER * crate::date::MAX_DAY_NUMBER)
        by (nonlinear_arith)
        requires
            0 < days_to_target <= crate::date::MAX_DAY_NUMBER,
            0 < duration <= crate::date::MAX_DAY_NUMBER,
    ;
    assert(days_to_target * duration > 0) by (nonlinear_arith)
        requires
            days_to_target > 0,
            duration > 0,
    ;
    let den = days_to_target * duration;
    let date_part = (2 * num + den) / (2 * den);
    assert(date_part <= 2 * num + den) by (nonlinear_arith)
        requires
            den > 0,
            num >= 0,
            date_part == (2 * num + den) / (2 * den),
    ;
    let total = rating_part + date_part;
    if total > 100 {
        100
    } else {
        total
    }
}

/// The urgency formula stays within its clamp bounds: for in-range ratings
/// and non-negative spans the result lies between 0 and 100.
pub proof fn lemma_urgency_in_range(complexity: int, value: int, days_to_target: int, duration: int)
    requires
        1 <= complexity <= 5,
        1 <= value <= 5,
    ensures
        0 <= spec_urgency(complexity, value, days_to_target, duration) <= 100,
{
    if days_to_target <= 0 || duration <= 0 {
    } else {
        let num = TARGET_DATE_FACTOR * duration + DURATION_FACTOR * days_to_target;
        let den = days_to_target * duration;
        assert(den > 0) by (nonlinear_arith)
            requires
                days_to_target > 0,
                duration > 0,
                den == days_to_target * duration,
        ;
        assert((2 * num + den) / (2 * den) >= 0) by (nonlinear_arith)
            requires
                num > 0,
                den > 0,
        ;
    }
}

/// Urgency is monotonically non-decreasing in complexity and in value when
/// the date spans are held fixed.
pub proof fn lemma_urgency_monotonic(
    complexity1: int,
    complexity2: int,
    value1: int,
    value2: int,
    days_to_target: int,
    duration: int,
)
    requires
        complexity1 <= complexity2,
        value1 <= value2,
    ensures
        spec_urgency(complexity1, value1, days_to_target, duration) <= spec_urgency(
            complexity2,
            value2,
            days_to_target,
            duration,
        ),
{
}

impl RoadmapItem {
    /// The urgency that the scoring formula gives this item's own fields.
    pub open spec fn spec_own_urgency(self, today: Date) -> int {
        spec_urgency(
            self.estimated_complexity as int,
            self.estimated_value as int,
            self.target_date.spec_day_number() - today.spec_day_number(),
            self.target_date.spec_day_number() - self.start_date.spec_day_number(),
        )
    }

    /// Builds an item and stamps its urgency from the scoring formula.
    pub fn new(
        name: String,
        estimated_complexity: usize,
        estimated_value: usize,
        start_date: Date,
        target_date: Date,
        today: Date,
        contributors: Vec<Contributor>,
    ) -> (item: RoadmapItem)
        requires
            1 <= estimated_complexity <= 5,
            1 <= estimated_value <= 5,
            start_date.valid(),
            target_date.valid(),
            today.valid(),
            start_date.spec_day_number() <= target_date.spec_day_number(),
            today.spec_day_number() <= target_date.spec_day_number(),
        ensures
            item.name == name,
            item.estimated_complexity == estimated_complexity,
            item.estimated_value == estimated_value,
            item.start_date == start_date,
            item.target_date == target_date,
            item.urgency == item.spec_own_urgency(today),
            item.contributors == contributors,
    {
        let urgency = calculate_project_urgency(
            estimated_complexity,
            estimated_value,
            &start_date,
            &target_date,
            &today,
        );
        RoadmapItem {
            name,
            estimated_complexity,
            estimated_value,
            start_date,
            target_date,
            urgency,
            contributors,
        }
    }

    /// Replaces the item's contributor list, yielding the enriched item.
    pub fn add_contributors(self, contributors: Vec<Contributor>) -> (item: RoadmapItem)
        ensures
            item.name == self.name,
            item.estimated_complexity == self.estimated_complexity,
            item.estimated_value == self.estimated_value,
            item.start_date == self.start_date,
            item.target_date == self.target_date,
            item.urgency == self.urgency,
            item.contributors == contributors,
    {
        RoadmapItem { contributors, ..self }
    }

    /// The item's urgency, in hundredths.
    pub fn get_urgency(&self) -> (r: u64)
        ensures
            r == self.urgency,
    {
        self.urgency
    }

    /// A copy of the item's contributor list.
    pub fn get_contributors(&self) -> (r: Vec<Contributor>)
        ensures
            r@ == self.contributors@,
    {
        let mut copies: Vec<Contributor> = Vec::new();
        let mut i: usize = 0;
        while i < self.contributors.len()
            invariant
                i <= self.contributors.len(),
                copies@ == self.contributors@.take(i as int),
            decreases self.contributors.len() - i,
        {
            copies.push(self.contributors[i].duplicate());
            proof {
                assert(copies@ =~= self.contributors@.take(i as int + 1));
            }
            i = i + 1;
        }
        proof {
            assert(copies@ =~= self.contributors@);
        }
        copies
    }

    /// Recomputes the item's urgency from its current fields.
    pub fn update_urgency(&mut self, today: Date)
        requires
            1 <= old(self).estimated_complexity <= 5,
            1 <= old(self).estimated_value <= 5,
            old(self).start_date.valid(),
            old(self).target_date.valid(),
            today.valid(),
            old(self).start_date.spec_day_number() <= old(self).target_date.spec_day_number(),
            today.spec_day_number() <= old(self).target_date.spec_day_number(),
        ensures
            final(self).name == old(self).name,
            final(self).estimated_complexity == old(self).estimated_complexity,
            final(self).estimated_value == old(self).estimated_value,
            final(self).start_date == old(self).start_date,
            final(self).target_date == old(self).target_date,
            final(self).urgency == old(self).spec_own_urgency(today),
            final(self).contributors == old(self).contributors,
    {
        self.urgency = calculate_project_urgency(
            self.estimated_complexity,
            self.estimated_value,
            &self.start_date,
            &self.target_date,
            &today,
        );
    }
}

} // verus!

