use vstd::prelude::*;

use crate::{cap_add, money_add, MONEY_CAP, RATE_DENOM};

verus! {

/// What one evaluation of a line promises: total cost against total
/// revenue, both in money units and both within `MONEY_CAP`.
#[derive(Debug, Clone, Copy, PartialEq, Eq, Structural)]
pub struct Profit {
    pub cost: u128,
    pub revenue: u128,
}

impl Profit {
    pub fn new(cost: u128, revenue: u128) -> (r: Profit)
        ensures
            r == (Profit { cost, revenue }),
    {
        Profit { cost, revenue }
    }

    /// Revenue minus cost.
    pub open spec fn spec_profit(self) -> int {
        self.revenue - self.cost
    }

    pub fn profit(&self) -> (r: i128)
        requires
            self.cost <= MONEY_CAP,
            self.revenue <= MONEY_CAP,
        ensures
            r == self.spec_profit(),
    {
        self.revenue as i128 - self.cost as i128
    }

    /// Whether revenue over cost clears one plus the given margin, in
    /// parts per million: `revenue / cost >= 1 + min_margin`, stated
    /// without division.
    pub open spec fn spec_margin_at_least(self, min_margin: u64) -> bool {
        self.revenue * RATE_DENOM >= self.cost * (RATE_DENOM + min_margin)
    }

    pub fn margin_at_least(&self, min_margin: u64) -> (r: bool)
        requires
            self.revenue <= MONEY_CAP,
        ensures
            r == self.spec_margin_at_least(min_margin),
    {
        let factor: u128 = RATE_DENOM as u128 + min_margin as u128;
        proof {
            assert(self.revenue as int * RATE_DENOM as int <= MONEY_CAP as int * RATE_DENOM as int)
                by (nonlinear_arith)
                requires
                    0 <= self.revenue as int <= MONEY_CAP as int,
            ;
        }
        let lhs: u128 = self.revenue * RATE_DENOM as u128;
        if self.cost > u128::MAX / factor {
            proof {
                let m = u128::MAX as int;
                assert(self.cost as int * factor as int > m) by (nonlinear_arith)
                    requires
                        self.cost as int > m / (factor as int),
                        factor as int >= 1,
                ;
            }
            false
        } else {
            proof {
                assert(self.cost as int * factor as int <= u128::MAX as int) by (nonlinear_arith)
                    requires
                        factor as int >= 1,
                        self.cost as int <= (u128::MAX as int) / (factor as int),
                ;
            }
            lhs >= self.cost * factor
        }
    }

    /// Adds another record's cost and revenue onto this one, saturating at
    /// `MONEY_CAP`.
    pub fn add_assign(&mut self, other: Profit)
        requires
            old(self).cost <= MONEY_CAP,
            old(self).revenue <= MONEY_CAP,
            other.cost <= MONEY_CAP,
            other.revenue <= MONEY_CAP,
        ensures
            final(self).cost == cap_add(old(self).cost as int, other.cost as int),
            final(self).revenue == cap_add(old(self).revenue as int, other.revenue as int),
    {
        self.cost = money_add(self.cost, other.cost);
        self.revenue = money_add(self.revenue, other.revenue);
    }
}

} // verus!
