use vstd::prelude::*;

use crate::catalog::Line;
use crate::item::Item;
use crate::sat_mul64;

verus! {

pub const DAY_SECONDS: u64 = 86_400;

/// The wall-clock time one sequence occupies: the line's duration plus the
/// daily flex allowance, rounded up to the next full day — a value already
/// on a day boundary still gains one more day.
pub open spec fn flexed_sequence_time(duration: int, daily_flex_time: int) -> int {
    let flexed = duration + daily_flex_time;
    flexed + DAY_SECONDS - (flexed % (DAY_SECONDS as int))
}

/// Law: when the flexed time already sits on a day boundary, the sequence
/// still rounds up by one whole day.
pub proof fn lemma_day_boundary_still_rounds_up(duration: int, daily_flex_time: int)
    requires
        duration >= 0,
        daily_flex_time >= 0,
        (duration + daily_flex_time) % (DAY_SECONDS as int) == 0,
    ensures
        flexed_sequence_time(duration, daily_flex_time) == duration + daily_flex_time
            + DAY_SECONDS,
{
}

/// A catalog line stretched over the planning horizon: how many sequences
/// of its runs fit, and how much idle time each sequence carries.
#[derive(Debug, Clone)]
pub struct DbLineTransformed {
    pub inner: Line,
    pub extra_duration: u64,
    pub num_sequences: u64,
}

impl DbLineTransformed {
    /// Packs sequences into the horizon. A line whose duration doubled
    /// exceeds the horizon runs exactly one sequence with no padding;
    /// otherwise whole flexed sequences are packed, each rounded up to
    /// full days.
    pub fn new(inner: Line, max_time: u64, daily_flex_time: u64) -> (r: DbLineTransformed)
        requires
            inner.duration + daily_flex_time + DAY_SECONDS <= u64::MAX,
        ensures
            r.inner == inner,
            2 * inner.duration > max_time ==> r.extra_duration == 0 && r.num_sequences == 1,
            2 * inner.duration <= max_time ==> {
                let fin = flexed_sequence_time(inner.duration as int, daily_flex_time as int);
                &&& r.num_sequences == max_time as int / fin
                &&& r.extra_duration == fin - inner.duration
            },
    {
        if inner.duration as u128 * 2 > max_time as u128 {
            DbLineTransformed { inner, extra_duration: 0, num_sequences: 1 }
        } else {
            let flexed: u64 = inner.duration + daily_flex_time;
            let fin: u64 = flexed + (DAY_SECONDS - flexed % DAY_SECONDS);
            let num_sequences: u64 = max_time / fin;
            let extra_duration: u64 = fin - inner.duration;
            DbLineTransformed { inner, extra_duration, num_sequences }
        }
    }

    /// The installation-cost bill for all sequences.
    pub fn installation_minerals(&self) -> (r: Vec<(Item, u64)>)
        ensures
            r@.len() == self.inner.installation_minerals@.len(),
            forall|j: int| 0 <= j < r@.len() ==> #[trigger] r@[j] == (
            self.inner.installation_minerals@[j].0, sat_mul64(
                self.inner.installation_minerals@[j].1 as int,
                self.num_sequences as int,
            ) as u64),
    {
        let mut r: Vec<(Item, u64)> = Vec::new();
        let mut i: usize = 0;
        while i < self.inner.installation_minerals.len()
            invariant
                0 <= i <= self.inner.installation_minerals@.len(),
                r@.len() == i,
                forall|j: int| 0 <= j < i ==> #[trigger] r@[j] == (
                self.inner.installation_minerals@[j].0, sat_mul64(
                    self.inner.installation_minerals@[j].1 as int,
                    self.num_sequences as int,
                ) as u64),
            decreases self.inner.installation_minerals@.len() - i,
        {
            let (item, quantity) = (
                self.inner.installation_minerals[i].0,
                self.inner.installation_minerals[i].1,
            );
            r.push((item, crate::qty_mul(quantity, self.num_sequences)));
            i = i + 1;
        }
        r
    }

    /// The bill of materials for all sequences.
    pub fn minerals(&self) -> (r: Vec<(Item, u64)>)
        ensures
            r@.len() == self.inner.minerals@.len(),
            forall|j: int| 0 <= j < r@.len() ==> #[trigger] r@[j] == (
            self.inner.minerals@[j].0, sat_mul64(
                self.inner.minerals@[j].1 as int,
                self.num_sequences as int,
            ) as u64),
    {
        let mut r: Vec<(Item, u64)> = Vec::new();
        let mut i: usize = 0;
        while i < self.inner.minerals.len()
            invariant
                0 <= i <= self.inner.minerals@.len(),
                r@.len() == i,
                forall|j: int| 0 <= j < i ==> #[trigger] r@[j] == (
                self.inner.minerals@[j].0, sat_mul64(
                    self.inner.minerals@[j].1 as int,
                    self.num_sequences as int,
                ) as u64),
            decreases self.inner.minerals@.len() - i,
        {
            let (item, quantity) = (self.inner.minerals[i].0, self.inner.minerals[i].1);
            r.push((item, crate::qty_mul(quantity, self.num_sequences)));
            i = i + 1;
        }
        r
    }

    pub fn cost_multiplier(&self) -> (r: u64)
        ensures
            r == self.inner.cost_multiplier,
    {
        self.inner.cost_multiplier
    }

    /// Runs over the whole horizon.
    pub fn runs(&self) -> (r: u64)
        ensures
            r == sat_mul64(self.inner.runs as int, self.num_sequences as int),
    {
        crate::qty_mul(self.inner.runs, self.num_sequences)
    }

    /// Items produced over the whole horizon.
    pub fn portion(&self) -> (r: u64)
        ensures
            r == sat_mul64(self.inner.portion as int, self.num_sequences as int),
    {
        crate::qty_mul(self.inner.portion, self.num_sequences)
    }

    pub fn num_sequences(&self) -> (r: u64)
        ensures
            r == self.num_sequences,
    {
        self.num_sequences
    }

    pub fn runs_per_sequence(&self) -> (r: u64)
        ensures
            r == self.inner.runs,
    {
        self.inner.runs
    }
}

} // verus!
