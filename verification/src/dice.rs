//! The dice-resolution engine: turns a roll request (kind, range,
//! repetition count) into a randomized result of a fixed shape. A Fate
//! roll is always four values in -1..=1; a faced roll is `times` values
//! (a non-positive count is normalized to one) drawn from 1..=range.

use vstd::prelude::*;

verus! {

/// One die outcome.
#[derive(Debug, Clone, Copy, PartialEq, Eq, Structural)]
pub struct Roll(pub i32);

/// The two die families the engine knows.
#[derive(Debug, Clone, Copy, PartialEq, Eq, Structural)]
pub enum DiceKind {
    Faced,
    Fate,
}

/// A resolved roll: the outcomes, tagged with the family they came from.
#[derive(Debug)]
pub enum RollResult {
    FacedRollResult(Vec<Roll>),
    FateRollResult(Vec<Roll>),
}

impl RollResult {
    /// The rolled values, in the order they were drawn.
    pub open spec fn spec_values(&self) -> Seq<int> {
        match self {
            RollResult::FacedRollResult(v) => v@.map_values(|r: Roll| r.0 as int),
            RollResult::FateRollResult(v) => v@.map_values(|r: Roll| r.0 as int),
        }
    }

    /// The rolled values, for display or inspection.
    pub fn values(&self) -> (v: &Vec<Roll>)
        ensures
            v@.map_values(|r: Roll| r.0 as int) == self.spec_values(),
    {
        match self {
            RollResult::FacedRollResult(v) => v,
            RollResult::FateRollResult(v) => v,
        }
    }
}

/// The shape every Fate result has: exactly four values, each in -1..=1.
pub open spec fn fate_shape(r: RollResult) -> bool {
    &&& r is FateRollResult
    &&& r.spec_values().len() == 4
    &&& forall|i: int| 0 <= i < r.spec_values().len() ==> -1 <= #[trigger] r.spec_values()[i] <= 1
}

/// The shape of a faced result for a given range and raw repetition
/// count: a non-positive count was normalized to one, and every value is
/// in 1..=range.
pub open spec fn faced_shape(r: RollResult, range: int, times: int) -> bool {
    &&& r is FacedRollResult
    &&& r.spec_values().len() == norm_times(times)
    &&& forall|i: int| 0 <= i < r.spec_values().len() ==> 1 <= #[trigger] r.spec_values()[i] <= range
}

/// The repetition count actually rolled: a non-positive request is a
/// deliberate permissive default of one, not an error.
pub open spec fn norm_times(times: int) -> int {
    if times < 1 {
        1
    } else {
        times
    }
}

/// The range a faced request resolves to: twenty when absent.
pub open spec fn spec_range_of(range: Option<i32>) -> int {
    match range {
        Option::Some(x) => x as int,
        Option::None => 20,
    }
}

/// The repetition count a request resolves to: one when absent.
pub open spec fn spec_times_of(times: Option<i32>) -> int {
    match times {
        Option::Some(x) => x as int,
        Option::None => 1,
    }
}

/// Relies on `rand::random_range`: one draw from the thread-local
/// generator, uniform over the inclusive range. The outcome depends on
/// the generator's state, so nothing beyond its bounds is promised; the
/// call panics on an empty range, hence the ordering requirement.
#[verifier::external_body]
fn random_in_range(low: i32, high: i32) -> (r: i32)
    requires
        low <= high,
    ensures
        low <= r <= high,
{
    rand::random_range(low..=high)
}

impl Roll {
    pub fn new() -> (r: Self)
        ensures
            r.0 == 0,
    {
        Roll(0)
    }

    /// Resolves one roll request. A faced request must carry a positive
    /// range if it carries one at all; the defaults are a twenty-sided
    /// die rolled once.
    pub fn roll(&self, dice: DiceKind, range: Option<i32>, times: Option<i32>) -> (r: RollResult)
        requires
            dice is Faced ==> spec_range_of(range) >= 1,
        ensures
            dice is Fate ==> fate_shape(r),
            dice is Faced ==> faced_shape(r, spec_range_of(range), spec_times_of(times)),
    {
        match dice {
            DiceKind::Fate => self.fate_roll(),
            DiceKind::Faced => self.faced_roll(range.unwrap_or(20), times.unwrap_or(1)),
        }
    }

    fn fate_roll(&self) -> (r: RollResult)
        ensures
            fate_shape(r),
    {
        let mut rolls: Vec<Roll> = Vec::new();
        let mut k: usize = 0;
        while k < 4
            invariant
                0 <= k <= 4,
                rolls@.len() == k,
                forall|i: int| 0 <= i < k ==> -1 <= #[trigger] rolls@[i].0 <= 1,
            decreases 4 - k,
        {
            let roll_value = random_in_range(-1, 1);
            rolls.push(Roll(roll_value));
            k = k + 1;
        }
        let r = RollResult::FateRollResult(rolls);
        proof {
            assert(forall|i: int|
                0 <= i < r.spec_values().len() ==> -1 <= #[trigger] r.spec_values()[i] <= 1);
        }
        r
    }

    fn faced_roll(&self, range: i32, times: i32) -> (r: RollResult)
        requires
            range >= 1,
        ensures
            faced_shape(r, range as int, times as int),
    {
        let times = if times < 1 {
            1
        } else {
            times
        };
        let mut rolls: Vec<Roll> = Vec::new();
        let mut k: i32 = 0;
        while k < times
            invariant
                0 <= k <= times,
                1 <= times,
                range >= 1,
                rolls@.len() == k,
                forall|i: int| 0 <= i < k ==> 1 <= #[trigger] rolls@[i].0 <= range,
            decreases times - k,
        {
            rolls.push(Roll(random_in_range(1, range)));
            k = k + 1;
        }
        let r = RollResult::FacedRollResult(rolls);
        proof {
            assert(forall|i: int|
                0 <= i < r.spec_values().len() ==> 1 <= #[trigger] r.spec_values()[i] <= range);
        }
        r
    }
}

/// A series of independent Fate rolls, one per requested repetition; a
/// non-positive count yields an empty series.
pub fn fate_roll_series(times: i32) -> (v: Vec<RollResult>)
    ensures
        v@.len() == (if times < 0 {
            0
        } else {
            times as int
        }),
        forall|i: int| 0 <= i < v@.len() ==> fate_shape(#[trigger] v@[i]),
{
    let mut out: Vec<RollResult> = Vec::new();
    let mut k: i32 = 0;
    while k < times
        invariant
            0 <= k,
            k <= times || k == 0,
            out@.len() == k,
            forall|i: int| 0 <= i < k ==> fate_shape(#[trigger] out@[i]),
        decreases times - k,
    {
        out.push(Roll::new().roll(DiceKind::Fate, None, None));
        k = k + 1;
    }
    out
}

} // verus!
