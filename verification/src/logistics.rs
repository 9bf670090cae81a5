use vstd::prelude::*;

use crate::config::DeliveryRate;
use crate::{cap_add, money_add, sat_add64, vol_add, MONEY_CAP};

verus! {

/// One atomic logistics hop between two locations (indices into the plan's
/// location arena), with the service's fee rates.
#[derive(Debug, Clone)]
pub struct DeliveryRoute {
    pub id: u32,
    pub service_name: String,
    pub src_location: usize,
    pub dst_location: usize,
    pub rate: DeliveryRate,
}

/// An ordered, non-empty chain of routes forming one logistics path; the
/// entries index the plan's route arena.
#[derive(Debug, Clone)]
pub struct DeliveryPipe {
    pub id: u32,
    pub routes: Vec<usize>,
}

/// Every route index of the pipe points into the arena, and the chain is
/// not empty.
pub open spec fn pipe_routes_ok(routes: Seq<DeliveryRoute>, idxs: Seq<usize>) -> bool {
    &&& idxs.len() > 0
    &&& forall|i: int| 0 <= i < idxs.len() ==> (#[trigger] idxs[i]) < routes.len()
}

/// The pipe's rate: the component-wise sum of its routes' rates, with the
/// cubic-metre fee capped at `MONEY_CAP` and the collateral rate at
/// `u64::MAX`.
pub open spec fn pipe_rate_model(routes: Seq<DeliveryRoute>, idxs: Seq<usize>) -> (int, int)
    decreases idxs.len(),
{
    if idxs.len() == 0 {
        (0int, 0int)
    } else {
        let rest = pipe_rate_model(routes, idxs.skip(1));
        let first = routes[idxs[0] as int].rate;
        (cap_add(first.m3_rate as int, rest.0), sat_add64(first.collateral_rate as int, rest.1))
    }
}

/// Both components of a pipe rate are non-negative and within their caps.
pub proof fn lemma_pipe_rate_bounds(routes: Seq<DeliveryRoute>, idxs: Seq<usize>)
    requires
        forall|i: int| 0 <= i < idxs.len() ==> (#[trigger] idxs[i]) < routes.len(),
        forall|i: int| 0 <= i < routes.len() ==> (#[trigger] routes[i]).rate.m3_rate <= MONEY_CAP,
    ensures
        0 <= pipe_rate_model(routes, idxs).0 <= MONEY_CAP,
        0 <= pipe_rate_model(routes, idxs).1 <= u64::MAX,
    decreases idxs.len(),
{
    if idxs.len() == 0 {
    } else {
        assert forall|i: int| 0 <= i < idxs.skip(1).len() implies (#[trigger] idxs.skip(1)[i])
            < routes.len() by {
            assert(idxs.skip(1)[i] == idxs[i + 1]);
        }
        lemma_pipe_rate_bounds(routes, idxs.skip(1));
    }
}

impl DeliveryPipe {
    /// The summed rate of the chain.
    pub fn delivery_rate(&self, routes: &Vec<DeliveryRoute>) -> (r: DeliveryRate)
        requires
            forall|i: int| 0 <= i < self.routes@.len() ==> (#[trigger] self.routes@[i])
                < routes@.len(),
            forall|i: int| 0 <= i < routes@.len() ==> (#[trigger] routes@[i]).rate.m3_rate
                <= MONEY_CAP,
        ensures
            r.m3_rate == pipe_rate_model(routes@, self.routes@).0,
            r.collateral_rate == pipe_rate_model(routes@, self.routes@).1,
    {
        let ghost idxs = self.routes@;
        proof {
            assert(idxs.skip(0) =~= idxs);
            lemma_pipe_rate_bounds(routes@, idxs);
        }
        let mut rate = DeliveryRate { m3_rate: 0, collateral_rate: 0 };
        let mut i: usize = 0;
        while i < self.routes.len()
            invariant
                0 <= i <= idxs.len(),
                self.routes@ == idxs,
                forall|j: int| 0 <= j < idxs.len() ==> (#[trigger] idxs[j]) < routes@.len(),
                forall|j: int| 0 <= j < routes@.len() ==> (#[trigger] routes@[j]).rate.m3_rate
                    <= MONEY_CAP,
                rate.m3_rate <= MONEY_CAP,
                cap_add(rate.m3_rate as int, pipe_rate_model(routes@, idxs.skip(i as int)).0)
                    == pipe_rate_model(routes@, idxs).0,
                sat_add64(
                    rate.collateral_rate as int,
                    pipe_rate_model(routes@, idxs.skip(i as int)).1,
                ) == pipe_rate_model(routes@, idxs).1,
            decreases idxs.len() - i,
        {
            proof {
                assert(idxs.skip(i as int)[0] == idxs[i as int]);
                assert(idxs.skip(i as int).skip(1) =~= idxs.skip(i as int + 1));
                assert forall|j: int| 0 <= j < idxs.skip(i as int + 1).len() implies (
                #[trigger] idxs.skip(i as int + 1)[j]) < routes@.len() by {
                    assert(idxs.skip(i as int + 1)[j] == idxs[i as int + 1 + j]);
                }
                lemma_pipe_rate_bounds(routes@, idxs.skip(i as int + 1));
            }
            let route_idx = self.routes[i];
            let hop_rate = routes[route_idx].rate;
            rate.m3_rate = money_add(rate.m3_rate, hop_rate.m3_rate);
            rate.collateral_rate = vol_add(rate.collateral_rate, hop_rate.collateral_rate);
            i = i + 1;
        }
        proof {
            assert(idxs.skip(i as int).len() == 0);
        }
        rate
    }

    /// Where the pipe starts: the first route's source.
    pub fn src(&self, routes: &Vec<DeliveryRoute>) -> (r: usize)
        requires
            pipe_routes_ok(routes@, self.routes@),
        ensures
            r == routes@[self.routes@[0] as int].src_location,
    {
        routes[self.routes[0]].src_location
    }

    /// Where the pipe ends: the last route's destination.
    pub fn dst(&self, routes: &Vec<DeliveryRoute>) -> (r: usize)
        requires
            pipe_routes_ok(routes@, self.routes@),
        ensures
            r == routes@[self.routes@[self.routes@.len() - 1] as int].dst_location,
    {
        routes[self.routes[self.routes.len() - 1]].dst_location
    }

    /// Every location the pipe touches: each route's source, then the final
    /// destination.
    pub fn locations(&self, routes: &Vec<DeliveryRoute>) -> (r: Vec<usize>)
        requires
            pipe_routes_ok(routes@, self.routes@),
        ensures
            r@.len() == self.routes@.len() + 1,
            forall|i: int| 0 <= i < self.routes@.len() ==> #[trigger] r@[i] == routes@[
                self.routes@[i] as int].src_location,
            r@[self.routes@.len() as int] == routes@[self.routes@[self.routes@.len() - 1]
                as int].dst_location,
    {
        let mut r: Vec<usize> = Vec::new();
        let mut i: usize = 0;
        while i < self.routes.len()
            invariant
                0 <= i <= self.routes@.len(),
                pipe_routes_ok(routes@, self.routes@),
                r@.len() == i,
                forall|j: int| 0 <= j < i ==> #[trigger] r@[j] == routes@[
                    self.routes@[j] as int].src_location,
            decreases self.routes@.len() - i,
        {
            r.push(routes[self.routes[i]].src_location);
            i = i + 1;
        }
        r.push(self.dst(routes));
        r
    }

    /// The destination of every route in the chain.
    pub fn dst_locations(&self, routes: &Vec<DeliveryRoute>) -> (r: Vec<usize>)
        requires
            pipe_routes_ok(routes@, self.routes@),
        ensures
            r@.len() == self.routes@.len(),
            forall|i: int| 0 <= i < self.routes@.len() ==> #[trigger] r@[i] == routes@[
                self.routes@[i] as int].dst_location,
    {
        let mut r: Vec<usize> = Vec::new();
        let mut i: usize = 0;
        while i < self.routes.len()
            invariant
                0 <= i <= self.routes@.len(),
                pipe_routes_ok(routes@, self.routes@),
                r@.len() == i,
                forall|j: int| 0 <= j < i ==> #[trigger] r@[j] == routes@[
                    self.routes@[j] as int].dst_location,
            decreases self.routes@.len() - i,
        {
            r.push(routes[self.routes[i]].dst_location);
            i = i + 1;
        }
        r
    }
}

} // verus!
