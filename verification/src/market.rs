use vstd::prelude::*;

use crate::{cap_add, cap_mul_div, money_mul_div, sat_add64, vol_add, MONEY_CAP, QTY_DENOM};

verus! {

/// One ask on a market: a unit price (money units) and a volume
/// (thousandths of an item).
#[derive(Debug, Clone, Copy, PartialEq, Eq, Structural)]
pub struct MarketOrder {
    pub price: u128,
    pub volume: u64,
}

/// Price range of the consumed prefix of one order book.
#[derive(Debug, Clone, Copy, PartialEq, Eq, Structural)]
pub struct PurchaseStats {
    pub price_low: u128,
    pub price_high: u128,
}

/// Orders are listed cheapest first.
pub open spec fn price_sorted(orders: Seq<MarketOrder>) -> bool {
    forall|i: int, j: int| 0 <= i <= j < orders.len() ==> orders[i].price <= orders[j].price
}

/// The order slice that the next reservation would consume, after `reserved`
/// thousandths have already been taken off the front of the book: the first
/// order whose cumulative volume exceeds `reserved`, with the not-yet-taken
/// part of its volume.
pub open spec fn next_in_book(orders: Seq<MarketOrder>, reserved: int) -> Option<MarketOrder>
    decreases orders.len(),
{
    if orders.len() == 0 {
        None
    } else if orders[0].volume > reserved {
        Some(MarketOrder { price: orders[0].price, volume: (orders[0].volume - reserved) as u64 })
    } else {
        next_in_book(orders.skip(1), reserved - orders[0].volume)
    }
}

/// Money paid for the first `reserved` thousandths of the book: full orders
/// until the crossing order, then the crossing order's remainder. Each
/// order's contribution is `price * volume / 1000`, saturating at
/// `MONEY_CAP`.
pub open spec fn book_cost(orders: Seq<MarketOrder>, reserved: int) -> int
    decreases orders.len(),
{
    if reserved <= 0 || orders.len() == 0 {
        0
    } else if orders[0].volume >= reserved {
        cap_mul_div(orders[0].price as int, reserved, QTY_DENOM as int)
    } else {
        cap_add(
            cap_mul_div(orders[0].price as int, orders[0].volume as int, QTY_DENOM as int),
            book_cost(orders.skip(1), reserved - orders[0].volume),
        )
    }
}

/// Unit price of the crossing order for `reserved` thousandths (the price
/// of the last order walked when the book runs out first).
pub open spec fn book_price_high(orders: Seq<MarketOrder>, reserved: int) -> int
    decreases orders.len(),
{
    if orders.len() == 0 {
        0
    } else if orders[0].volume >= reserved || orders.len() == 1 {
        orders[0].price as int
    } else {
        book_price_high(orders.skip(1), reserved - orders[0].volume)
    }
}

/// One type's order book at one market location, with its two reservation
/// counters. `orders` and `total` never change after loading; only the
/// counters move. `reserved` holds committed (permanent) reservations;
/// `reserved_current` holds tentative reservations scoped to the context
/// tag `reserved_current_context`, and is discarded whenever a different
/// context is observed. All volumes count thousandths of an item.
#[derive(Debug, Clone)]
pub struct TypeMarketOrders {
    pub orders: Vec<MarketOrder>,
    pub total: u64,
    pub reserved: u64,
    pub reserved_current: u64,
    pub reserved_current_context: u64,
}

impl TypeMarketOrders {
    /// Orders sorted cheapest-first, with positive volumes and prices
    /// within the money cap.
    pub open spec fn wf(self) -> bool {
        &&& price_sorted(self.orders@)
        &&& forall|i: int| 0 <= i < self.orders@.len() ==> #[trigger] self.orders@[i].volume > 0
        &&& forall|i: int| 0 <= i < self.orders@.len() ==> #[trigger] self.orders@[i].price
            <= MONEY_CAP
    }

    /// What a probe that has set aside `extra` thousandths on top of the
    /// committed reservations would be offered next.
    pub open spec fn probe_next_model(self, extra: u64) -> Option<MarketOrder> {
        if self.reserved + extra >= self.total {
            None
        } else {
            next_in_book(self.orders@, self.reserved + extra)
        }
    }

    /// Read-only view of the next order slice past the committed
    /// reservations plus a probe's own `extra`; never touches the book.
    #[verifier::loop_isolation(false)]
    pub fn probe_next(&self, extra: u64) -> (r: Option<MarketOrder>)
        ensures
            r == self.probe_next_model(extra),
    {
        let eff: u128 = self.reserved as u128 + extra as u128;
        if eff >= self.total as u128 {
            return None;
        }
        let ghost orders = self.orders@;
        proof {
            assert(orders.skip(0) =~= orders);
        }
        let mut i: usize = 0;
        let mut remaining: u128 = eff;
        while i < self.orders.len()
            invariant
                0 <= i <= self.orders@.len(),
                remaining <= eff,
                next_in_book(orders.skip(i as int), remaining as int) == next_in_book(
                    orders,
                    eff as int,
                ),
            decreases self.orders@.len() - i,
        {
            let order = MarketOrder {
                price: self.orders[i].price,
                volume: self.orders[i].volume,
            };
            proof {
                assert(orders.skip(i as int)[0] == orders[i as int]);
            }
            if order.volume as u128 > remaining {
                let slice = MarketOrder {
                    price: order.price,
                    volume: (order.volume as u128 - remaining) as u64,
                };
                return Some(slice);
            }
            proof {
                assert(orders.skip(i as int).skip(1) =~= orders.skip(i as int + 1));
            }
            remaining = remaining - order.volume as u128;
            i = i + 1;
        }
        proof {
            assert(orders.skip(i as int).len() == 0);
        }
        None
    }

    /// The ledger invariant: committed plus tentative reservations never
    /// exceed the book's total depth.
    pub open spec fn within_total(self) -> bool {
        self.reserved + self.reserved_current <= self.total
    }

    /// The tentative reservation that a reader under `context` sees.
    pub open spec fn tentative_for(self, context: Option<u64>) -> u64 {
        match context {
            Some(c) => if c == self.reserved_current_context {
                self.reserved_current
            } else {
                0u64
            },
            None => 0u64,
        }
    }

    /// Reservations a reader under `context` sees, committed plus tentative.
    pub open spec fn effective_reserved(self, context: Option<u64>) -> int {
        self.reserved + self.tentative_for(context)
    }

    /// The state after a reader under `context` has touched the book: a new
    /// context discards the stale tentative reservation.
    pub open spec fn observe_model(self, context: Option<u64>) -> TypeMarketOrders {
        match context {
            Some(c) => if c == self.reserved_current_context {
                self
            } else {
                TypeMarketOrders {
                    reserved_current: 0u64,
                    reserved_current_context: c,
                    ..self
                }
            },
            None => self,
        }
    }

    /// The state after reserving `volume` under `context`: tentative under a
    /// matching context accumulates, a new context starts over at `volume`,
    /// and no context at all commits permanently.
    pub open spec fn reserve_model(self, context: Option<u64>, volume: u64) -> TypeMarketOrders {
        match context {
            Some(c) => if c == self.reserved_current_context {
                TypeMarketOrders {
                    reserved_current: sat_add64(self.reserved_current as int, volume as int) as u64,
                    ..self
                }
            } else {
                TypeMarketOrders {
                    reserved_current: volume,
                    reserved_current_context: c,
                    ..self
                }
            },
            None => TypeMarketOrders {
                reserved: sat_add64(self.reserved as int, volume as int) as u64,
                ..self
            },
        }
    }

    pub fn new(orders: Vec<MarketOrder>, total: u64) -> (r: TypeMarketOrders)
        ensures
            r.orders == orders,
            r.total == total,
            r.reserved == 0,
            r.reserved_current == 0,
            r.reserved_current_context == 0,
    {
        TypeMarketOrders {
            orders,
            total,
            reserved: 0,
            reserved_current: 0,
            reserved_current_context: 0,
        }
    }

    /// The tentative reservation seen under `context`, discarding a stale
    /// one if the context is new.
    fn reserved_current(&mut self, context: Option<u64>) -> (r: u64)
        ensures
            r == old(self).tentative_for(context),
            *final(self) == old(self).observe_model(context),
    {
        match context {
            Some(c) => {
                if self.reserved_current_context == c {
                    self.reserved_current
                } else {
                    self.reserved_current_context = c;
                    self.reserved_current = 0;
                    0
                }
            },
            None => 0,
        }
    }

    /// Adds `volume` thousandths to the reservations under `context`.
    pub fn reserve(&mut self, context: Option<u64>, volume: u64)
        ensures
            *final(self) == old(self).reserve_model(context, volume),
    {
        match context {
            Some(c) => {
                if self.reserved_current_context == c {
                    self.reserved_current = vol_add(self.reserved_current, volume);
                } else {
                    self.reserved_current_context = c;
                    self.reserved_current = volume;
                }
            },
            None => {
                self.reserved = vol_add(self.reserved, volume);
            },
        }
    }

    /// The cheapest order slice not yet covered by the reservations seen
    /// under `context`; nothing once reservations have reached the book's
    /// total depth or the listed orders are exhausted.
    #[verifier::loop_isolation(false)]
    pub fn next_available(&mut self, context: Option<u64>) -> (r: Option<MarketOrder>)
        ensures
            *final(self) == old(self).observe_model(context),
            r == if old(self).effective_reserved(context) >= old(self).total {
                None::<MarketOrder>
            } else {
                next_in_book(old(self).orders@, old(self).effective_reserved(context))
            },
    {
        let tentative = self.reserved_current(context);
        let eff: u128 = self.reserved as u128 + tentative as u128;
        if eff >= self.total as u128 {
            return None;
        }
        let ghost orders = self.orders@;
        proof {
            assert(orders.skip(0) =~= orders);
        }
        let mut i: usize = 0;
        let mut remaining: u128 = eff;
        while i < self.orders.len()
            invariant
                0 <= i <= self.orders@.len(),
                self.orders@ == orders,
                remaining <= eff,
                next_in_book(orders.skip(i as int), remaining as int) == next_in_book(
                    orders,
                    eff as int,
                ),
            decreases self.orders@.len() - i,
        {
            let order = MarketOrder {
                price: self.orders[i].price,
                volume: self.orders[i].volume,
            };
            proof {
                assert(orders.skip(i as int)[0] == orders[i as int]);
            }
            if order.volume as u128 > remaining {
                let slice = MarketOrder {
                    price: order.price,
                    volume: (order.volume as u128 - remaining) as u64,
                };
                return Some(slice);
            }
            proof {
                assert(orders.skip(i as int).skip(1) =~= orders.skip(i as int + 1));
            }
            remaining = remaining - order.volume as u128;
            i = i + 1;
        }
        proof {
            assert(orders.skip(i as int).len() == 0);
        }
        None
    }

    /// Whole items covered by the reservations seen under `context`.
    pub fn num_purchased(&mut self, context: Option<u64>) -> (r: i64)
        ensures
            *final(self) == old(self).observe_model(context),
            r == old(self).effective_reserved(context) / (QTY_DENOM as int),
    {
        let tentative = self.reserved_current(context);
        let eff: u128 = self.reserved as u128 + tentative as u128;
        let whole: u128 = eff / (QTY_DENOM as u128);
        whole as i64
    }

    /// Whole items covered by the reservations seen under `context`,
    /// together with the price range of the consumed order-book prefix;
    /// adds the money paid for that prefix onto `cost`.
    pub fn num_purchased_with_stats(&mut self, context: Option<u64>, cost: &mut u128) -> (r: (
        i64,
        PurchaseStats,
    ))
        requires
            *old(cost) <= MONEY_CAP,
        ensures
            *final(self) == old(self).observe_model(context),
            r.0 == old(self).effective_reserved(context) / (QTY_DENOM as int),
            *final(cost) <= MONEY_CAP,
            old(self).effective_reserved(context) == 0 || old(self).orders@.len() == 0 ==> {
                &&& *final(cost) == *old(cost)
                &&& r.1 == (PurchaseStats { price_low: 0u128, price_high: 0u128 })
            },
            old(self).effective_reserved(context) > 0 && old(self).orders@.len() > 0 ==> {
                &&& *final(cost) == cap_add(
                    *old(cost) as int,
                    book_cost(old(self).orders@, old(self).effective_reserved(context)),
                )
                &&& r.1.price_low == old(self).orders@[0].price
                &&& r.1.price_high == book_price_high(
                    old(self).orders@,
                    old(self).effective_reserved(context),
                )
            },
    {
        let tentative = self.reserved_current(context);
        let eff: u128 = self.reserved as u128 + tentative as u128;
        let num_purchased: i64 = (eff / (QTY_DENOM as u128)) as i64;
        if eff == 0 || self.orders.len() == 0 {
            return (num_purchased, PurchaseStats { price_low: 0, price_high: 0 });
        }
        let ghost orders = self.orders@;
        let ghost cost0 = *cost;
        proof {
            assert(orders.skip(0) =~= orders);
        }
        let mut stats = PurchaseStats {
            price_low: self.orders[0].price,
            price_high: self.orders[0].price,
        };
        let mut i: usize = 0;
        let mut remaining: u128 = eff;
        loop
            invariant_except_break
                0 <= i < self.orders@.len(),
                1 <= remaining <= eff,
                *cost <= MONEY_CAP,
                stats.price_low == orders[0].price,
                cap_add(cost0 as int, book_cost(orders, eff as int)) == cap_add(
                    *cost as int,
                    book_cost(orders.skip(i as int), remaining as int),
                ),
                book_price_high(orders, eff as int) == book_price_high(
                    orders.skip(i as int),
                    remaining as int,
                ),
            invariant
                self.orders@ == orders,
                orders.len() > 0,
            ensures
                *cost <= MONEY_CAP,
                *cost == cap_add(cost0 as int, book_cost(orders, eff as int)),
                stats.price_low == orders[0].price,
                stats.price_high == book_price_high(orders, eff as int),
            decreases self.orders@.len() - i,
        {
            let order = MarketOrder {
                price: self.orders[i].price,
                volume: self.orders[i].volume,
            };
            proof {
                assert(orders.skip(i as int)[0] == orders[i as int]);
            }
            stats.price_high = order.price;
            if order.volume as u128 >= remaining {
                // the crossing order: pay only for the reserved part
                let addition = money_mul_div(order.price, remaining, QTY_DENOM);
                *cost = crate::money_add(*cost, addition);
                break;
            }
            let addition = money_mul_div(order.price, order.volume as u128, QTY_DENOM);
            let ghost before = *cost as int;
            *cost = crate::money_add(*cost, addition);
            proof {
                assert(orders.skip(i as int).skip(1) =~= orders.skip(i as int + 1));
                lemma_book_cost_nonneg(
                    orders.skip(i as int + 1),
                    remaining - order.volume,
                );
                lemma_cap_add_assoc(
                    before,
                    addition as int,
                    book_cost(orders.skip(i as int + 1), remaining - order.volume),
                );
            }
            remaining = remaining - order.volume as u128;
            if i == self.orders.len() - 1 {
                // the book ran out before the reservations did
                proof {
                    assert(orders.skip(i as int + 1).len() == 0);
                }
                break;
            }
            i = i + 1;
        }
        (num_purchased, stats)
    }

    /// The cheapest listed price, if any order is listed.
    pub fn min_sell(&self) -> (r: Option<u128>)
        ensures
            r == if self.orders@.len() > 0 {
                Some(self.orders@[0].price)
            } else {
                None::<u128>
            },
    {
        if self.orders.len() > 0 {
            Some(self.orders[0].price)
        } else {
            None
        }
    }

    /// Total market depth in thousandths, as reported by the snapshot.
    pub fn total_volume(&self) -> (r: u64)
        ensures
            r == self.total,
    {
        self.total
    }
}

/// Law: observing a book under any context only discards a tentative
/// reservation, so committed plus tentative reservations stay within the
/// book's total depth.
pub proof fn lemma_observe_keeps_within_total(b: TypeMarketOrders, context: Option<u64>)
    requires
        b.within_total(),
    ensures
        b.observe_model(context).within_total(),
{
}

/// Law: a reservation that stays within what the reserving context still
/// sees available keeps committed plus tentative reservations within the
/// book's total depth. A committing reservation (no context) must also
/// leave room for the stored tentative one: a stale probe reservation
/// shares the same bound until a new context discards it, so the
/// unguarded form of the invariant cannot hold of arbitrary interleaved
/// probes and commits — nor of the scheduler's depth fallback, which
/// deliberately books a shortfall past the listed depth.
pub proof fn lemma_reserve_keeps_within_total(
    b: TypeMarketOrders,
    context: Option<u64>,
    volume: u64,
)
    requires
        b.within_total(),
        b.reserved + volume + (match context {
            Some(c) => if c == b.reserved_current_context {
                b.reserved_current as int
            } else {
                0int
            },
            None => b.reserved_current as int,
        }) <= b.total,
    ensures
        b.reserve_model(context, volume).within_total(),
{
}

/// Law: a tentative reservation made under one context neither touches the
/// committed counter nor is seen by a reader under a different context.
pub proof fn lemma_tentative_isolated(b: TypeMarketOrders, c1: u64, c2: u64, volume: u64)
    requires
        c1 != c2,
    ensures
        b.reserve_model(Some(c1), volume).reserved == b.reserved,
        b.reserve_model(Some(c1), volume).effective_reserved(Some(c2)) == b.reserved,
        b.reserve_model(Some(c1), volume).effective_reserved(None) == b.reserved,
{
}

/// The next available slice of a sorted book is never cheaper than the
/// book's cheapest order.
pub proof fn lemma_next_price_lower_bound(orders: Seq<MarketOrder>, reserved: int)
    requires
        price_sorted(orders),
        next_in_book(orders, reserved) is Some,
    ensures
        orders.len() > 0,
        next_in_book(orders, reserved).unwrap().price >= orders[0].price,
    decreases orders.len(),
{
    if orders.len() == 0 {
    } else if orders[0].volume > reserved {
    } else {
        let tail = orders.skip(1);
        assert forall|i: int, j: int| 0 <= i <= j < tail.len() implies tail[i].price
            <= tail[j].price by {
            assert(tail[i] == orders[i + 1]);
            assert(tail[j] == orders[j + 1]);
        }
        lemma_next_price_lower_bound(tail, reserved - orders[0].volume);
        assert(tail[0] == orders[1]);
    }
}

/// Law: walking a sorted book by repeated `next_available` plus `reserve`
/// returns unit prices in non-decreasing order — the slice seen after more
/// of the book is reserved is never cheaper than the slice seen before.
pub proof fn lemma_next_available_price_monotone(orders: Seq<MarketOrder>, r1: int, r2: int)
    requires
        price_sorted(orders),
        0 <= r1 <= r2,
        next_in_book(orders, r1) is Some,
        next_in_book(orders, r2) is Some,
    ensures
        next_in_book(orders, r1).unwrap().price <= next_in_book(orders, r2).unwrap().price,
    decreases orders.len(),
{
    if orders.len() == 0 {
    } else if orders[0].volume > r1 {
        if orders[0].volume > r2 {
        } else {
            let tail = orders.skip(1);
            assert forall|i: int, j: int| 0 <= i <= j < tail.len() implies tail[i].price
                <= tail[j].price by {
                assert(tail[i] == orders[i + 1]);
                assert(tail[j] == orders[j + 1]);
            }
            lemma_next_price_lower_bound(tail, r2 - orders[0].volume);
            assert(tail[0] == orders[1]);
        }
    } else {
        let tail = orders.skip(1);
        assert forall|i: int, j: int| 0 <= i <= j < tail.len() implies tail[i].price
            <= tail[j].price by {
            assert(tail[i] == orders[i + 1]);
            assert(tail[j] == orders[j + 1]);
        }
        lemma_next_available_price_monotone(
            tail,
            r1 - orders[0].volume,
            r2 - orders[0].volume,
        );
    }
}

/// The offered slice always has at least one thousandth of volume.
pub proof fn lemma_next_volume_pos(orders: Seq<MarketOrder>, reserved: int)
    requires
        reserved >= 0,
        next_in_book(orders, reserved) is Some,
    ensures
        next_in_book(orders, reserved).unwrap().volume >= 1,
    decreases orders.len(),
{
    if orders.len() == 0 {
    } else if orders[0].volume > reserved {
    } else {
        lemma_next_volume_pos(orders.skip(1), reserved - orders[0].volume);
    }
}

/// The offered slice's price is one of the book's listed prices, so it
/// stays within the money cap on a well-formed book.
pub proof fn lemma_next_price_capped(orders: Seq<MarketOrder>, reserved: int)
    requires
        forall|i: int| 0 <= i < orders.len() ==> #[trigger] orders[i].price <= MONEY_CAP,
        next_in_book(orders, reserved) is Some,
    ensures
        next_in_book(orders, reserved).unwrap().price <= MONEY_CAP,
    decreases orders.len(),
{
    if orders.len() == 0 {
    } else if orders[0].volume > reserved {
    } else {
        assert forall|i: int| 0 <= i < orders.skip(1).len() implies #[trigger] orders.skip(
            1,
        )[i].price <= MONEY_CAP by {
            assert(orders.skip(1)[i] == orders[i + 1]);
        }
        lemma_next_price_capped(orders.skip(1), reserved - orders[0].volume);
    }
}

/// What a book prefix costs is never negative.
pub proof fn lemma_book_cost_nonneg(orders: Seq<MarketOrder>, reserved: int)
    ensures
        book_cost(orders, reserved) >= 0,
    decreases orders.len(),
{
    if reserved <= 0 || orders.len() == 0 {
    } else if orders[0].volume >= reserved {
        assert(orders[0].price as int * reserved >= 0) by (nonlinear_arith)
            requires
                orders[0].price as int >= 0,
                reserved >= 0,
        ;
    } else {
        assert(orders[0].price as int * orders[0].volume as int >= 0) by (nonlinear_arith)
            requires
                orders[0].price as int >= 0,
                orders[0].volume as int >= 0,
        ;
        lemma_book_cost_nonneg(orders.skip(1), reserved - orders[0].volume);
    }
}

/// Saturating addition is associative for non-negative amounts.
pub proof fn lemma_cap_add_assoc(a: int, b: int, c: int)
    requires
        a >= 0,
        b >= 0,
        c >= 0,
    ensures
        cap_add(cap_add(a, b), c) == cap_add(a, cap_add(b, c)),
{
}

} // verus!
