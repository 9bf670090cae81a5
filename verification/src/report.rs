use vstd::prelude::*;

use crate::item::Item;
use crate::plan::{item_volume, num_available, PlanCfg, PlanState};
use crate::{cap_add, cap_mul_div, QTY_DENOM, MONEY_CAP};

verus! {

/// One consumed order-book prefix: how many whole items the plan buys of
/// one type at one market, and the price range it pays.
#[derive(Debug, Clone)]
pub struct OutputPurchase {
    pub item: String,
    pub quantity: i64,
    pub price_low: u128,
    pub price_high: u128,
}

/// One line's committed jobs.
#[derive(Debug, Clone)]
pub struct OutputBuild {
    pub product: String,
    pub blueprint: String,
    pub decryptor: Option<String>,
    pub runs: u64,
    pub sequences: u64,
    pub builds: u64,
}

/// One pending item quantity on a pipe.
#[derive(Debug, Clone)]
pub struct OutputDelivery {
    pub item: String,
    pub quantity: u64,
}

/// What one pipe carries away from a location, labelled with where it
/// goes and which service hauls it.
#[derive(Debug, Clone)]
pub struct OutputDeliveries {
    pub destination: String,
    pub service_name: String,
    pub items: Vec<OutputDelivery>,
}

/// An item whose on-hand count falls short of the plan's target.
#[derive(Debug, Clone)]
pub struct OutputAssetTarget {
    pub item: String,
    pub target: u64,
    pub current: i64,
}

/// Everything the plan asks of one location.
#[derive(Debug, Clone)]
pub struct OutputLocation {
    pub location: String,
    pub purchases: Option<Vec<OutputPurchase>>,
    pub builds: Option<Vec<OutputBuild>>,
    pub deliveries: Option<Vec<OutputDeliveries>>,
    pub missing_assets: Option<Vec<OutputAssetTarget>>,
}

/// The whole plan report: one entry per location and the grand total of
/// installation costs and volume fees (collateral fees excluded).
#[derive(Debug, Clone)]
pub struct OutputLocations {
    pub cost: u128,
    pub locations: Vec<OutputLocation>,
}

/// The catalog name recorded for an item, or the empty string.
fn find_name(names: &Vec<(Item, String)>, item: Item) -> (r: String) {
    let mut i: usize = 0;
    while i < names.len()
        decreases names@.len() - i,
    {
        if names[i].0 == item {
            return names[i].1.clone();
        }
        i = i + 1;
    }
    String::new()
}

/// Installation costs of the committed jobs among the given lines,
/// saturating money arithmetic.
pub open spec fn lines_install_cost(
    cfg: PlanCfg,
    st: PlanState,
    lines_at: Seq<usize>,
    k: int,
) -> int
    decreases lines_at.len() - k,
    when 0 <= k
{
    if k >= lines_at.len() {
        0
    } else {
        let l = lines_at[k] as int;
        let own = if 0 <= l < st.builds@.len() && 0 <= l < cfg.lines@.len() && st.builds@[l]
            > 0 {
            cap_mul_div(cfg.lines@[l].installation_cost as int, st.builds@[l] as int, 1)
        } else {
            0
        };
        cap_add(own, lines_install_cost(cfg, st, lines_at, k + 1))
    }
}

/// Volume fees of one pipe's pending entries: rate times cubic metres
/// times quantity, per entry.
pub open spec fn entries_fee(
    cfg: PlanCfg,
    m3_rate: int,
    entries: Seq<(Item, u64)>,
    e: int,
) -> int
    decreases entries.len() - e,
    when 0 <= e
{
    if e >= entries.len() {
        0
    } else {
        let fee = cap_mul_div(
            cap_mul_div(m3_rate, item_volume(cfg.volumes@, entries[e].0), QTY_DENOM as int),
            entries[e].1 as int,
            1,
        );
        cap_add(fee, entries_fee(cfg, m3_rate, entries, e + 1))
    }
}

/// Volume fees summed over the given pipes' pending deliveries.
pub open spec fn pipes_fee(cfg: PlanCfg, st: PlanState, pipes_at: Seq<usize>, k: int) -> int
    decreases pipes_at.len() - k,
    when 0 <= k
{
    if k >= pipes_at.len() {
        0
    } else {
        let p = pipes_at[k] as int;
        let own = if 0 <= p < st.deliveries@.len() && 0 <= p < cfg.pipes@.len() {
            entries_fee(
                cfg,
                crate::logistics::pipe_rate_model(cfg.routes@, cfg.pipes@[p].routes@).0,
                st.deliveries@[p]@,
                0,
            )
        } else {
            0
        };
        cap_add(own, pipes_fee(cfg, st, pipes_at, k + 1))
    }
}

/// The report's grand total: per location, the installation costs of its
/// committed jobs plus the volume fees of what its departing pipes carry.
pub open spec fn report_cost_model(cfg: PlanCfg, st: PlanState, i: int) -> int
    decreases cfg.locations@.len() - i,
    when 0 <= i
{
    if i >= cfg.locations@.len() {
        0
    } else {
        cap_add(
            cap_add(
                lines_install_cost(cfg, st, cfg.locations@[i].lines@, 0),
                pipes_fee(cfg, st, cfg.locations@[i].export_pipes@, 0),
            ),
            report_cost_model(cfg, st, i + 1),
        )
    }
}

proof fn lemma_lines_install_cost_bounds(cfg: PlanCfg, st: PlanState, lines_at: Seq<usize>, k: int)
    requires
        0 <= k,
    ensures
        0 <= lines_install_cost(cfg, st, lines_at, k) <= MONEY_CAP,
    decreases lines_at.len() - k,
{
    if k >= lines_at.len() {
    } else {
        let l = lines_at[k] as int;
        if 0 <= l < st.builds@.len() && 0 <= l < cfg.lines@.len() && st.builds@[l] > 0 {
            crate::lemma_cap_mul_div_bounds(
                cfg.lines@[l].installation_cost as int,
                st.builds@[l] as int,
                1,
            );
        }
        lemma_lines_install_cost_bounds(cfg, st, lines_at, k + 1);
    }
}

proof fn lemma_entries_fee_bounds(cfg: PlanCfg, m3_rate: int, entries: Seq<(Item, u64)>, e: int)
    requires
        0 <= e,
        m3_rate >= 0,
    ensures
        0 <= entries_fee(cfg, m3_rate, entries, e) <= MONEY_CAP,
    decreases entries.len() - e,
{
    if e >= entries.len() {
    } else {
        crate::ledger::lemma_ledger_nonneg(cfg.volumes@, entries[e].0);
        crate::lemma_cap_mul_div_bounds(
            m3_rate,
            item_volume(cfg.volumes@, entries[e].0),
            QTY_DENOM as int,
        );
        crate::lemma_cap_mul_div_bounds(
            cap_mul_div(m3_rate, item_volume(cfg.volumes@, entries[e].0), QTY_DENOM as int),
            entries[e].1 as int,
            1,
        );
        lemma_entries_fee_bounds(cfg, m3_rate, entries, e + 1);
    }
}

proof fn lemma_pipes_fee_bounds(cfg: PlanCfg, st: PlanState, pipes_at: Seq<usize>, k: int)
    requires
        0 <= k,
        forall|m: int| 0 <= m < cfg.routes@.len() ==> (#[trigger] cfg.routes@[m]).rate.m3_rate
            <= MONEY_CAP,
        forall|m: int| 0 <= m < cfg.pipes@.len() ==> crate::logistics::pipe_routes_ok(
            cfg.routes@,
            (#[trigger] cfg.pipes@[m]).routes@,
        ),
    ensures
        0 <= pipes_fee(cfg, st, pipes_at, k) <= MONEY_CAP,
    decreases pipes_at.len() - k,
{
    if k >= pipes_at.len() {
    } else {
        let p = pipes_at[k] as int;
        if 0 <= p < st.deliveries@.len() && 0 <= p < cfg.pipes@.len() {
            crate::logistics::lemma_pipe_rate_bounds(cfg.routes@, cfg.pipes@[p].routes@);
            lemma_entries_fee_bounds(
                cfg,
                crate::logistics::pipe_rate_model(cfg.routes@, cfg.pipes@[p].routes@).0,
                st.deliveries@[p]@,
                0,
            );
        }
        lemma_pipes_fee_bounds(cfg, st, pipes_at, k + 1);
    }
}

proof fn lemma_report_cost_bounds(cfg: PlanCfg, st: PlanState, i: int)
    requires
        0 <= i,
        forall|m: int| 0 <= m < cfg.routes@.len() ==> (#[trigger] cfg.routes@[m]).rate.m3_rate
            <= MONEY_CAP,
        forall|m: int| 0 <= m < cfg.pipes@.len() ==> crate::logistics::pipe_routes_ok(
            cfg.routes@,
            (#[trigger] cfg.pipes@[m]).routes@,
        ),
    ensures
        0 <= report_cost_model(cfg, st, i) <= MONEY_CAP,
    decreases cfg.locations@.len() - i,
{
    if i >= cfg.locations@.len() {
    } else {
        lemma_lines_install_cost_bounds(cfg, st, cfg.locations@[i].lines@, 0);
        lemma_pipes_fee_bounds(cfg, st, cfg.locations@[i].export_pipes@, 0);
        lemma_report_cost_bounds(cfg, st, i + 1);
    }
}

/// The purchase rows a market location reports, from its book table in
/// order: one row per book whose committed (permanent) reservations cover
/// at least one whole item — tentative probe state plays no part — with
/// the quantity in whole items and the price range of the consumed
/// order-book prefix.
pub open spec fn purchases_upto(st: PlanState, books_at: Seq<(u32, usize)>, k: int) -> Seq<
    (int, int, int),
>
    decreases k,
{
    if k <= 0 {
        Seq::empty()
    } else {
        let before = purchases_upto(st, books_at, k - 1);
        let b = books_at[k - 1].1 as int;
        let book = st.books@[b];
        let quantity = book.reserved as int / (QTY_DENOM as int);
        if quantity > 0 {
            before + seq![
                (
                    quantity,
                    if book.orders@.len() > 0 {
                        book.orders@[0].price as int
                    } else {
                        0int
                    },
                    if book.orders@.len() > 0 {
                        crate::market::book_price_high(book.orders@, book.reserved as int)
                    } else {
                        0int
                    },
                ),
            ]
        } else {
            before
        }
    }
}

/// Renders the finished plan into its report. Reading the report does not
/// move the plan: the state is handed back exactly as it came in. Its
/// grand total is exactly the installation costs of the committed jobs
/// plus the volume fees of the pending deliveries — purchase costs are
/// reported per entry, never folded into the total.
pub fn output_locations(
    cfg: &PlanCfg,
    st: &mut PlanState,
    type_names: &Vec<(Item, String)>,
) -> (r: OutputLocations)
    requires
        cfg.wf(),
        old(st).wf(*cfg),
    ensures
        final(st).books@ == old(st).books@,
        final(st).deliveries == old(st).deliveries,
        final(st).builds == old(st).builds,
        final(st).slots == old(st).slots,
        final(st).consumed == old(st).consumed,
        final(st).wf(*cfg),
        r.locations@.len() == cfg.locations@.len(),
        r.cost == report_cost_model(*cfg, *old(st), 0),
        forall|i: int| 0 <= i < cfg.locations@.len() ==> ((#[trigger] r.locations@[
            i]).purchases is Some <==> cfg.locations@[i].market is Some),
        forall|i: int|
            0 <= i < cfg.locations@.len() && cfg.locations@[i].market is Some ==> {
                let listed = (#[trigger] r.locations@[i]).purchases.unwrap()@;
                let model = purchases_upto(
                    *old(st),
                    cfg.locations@[i].books@,
                    cfg.locations@[i].books@.len() as int,
                );
                &&& listed.len() == model.len()
                &&& forall|e: int| 0 <= e < model.len() ==> (#[trigger] listed[e]).quantity
                    == model[e].0 && listed[e].price_low == model[e].1 && listed[e].price_high
                    == model[e].2
            },
{
    proof {
        lemma_report_cost_bounds(*cfg, *old(st), 0);
    }
    let mut cost: u128 = 0;
    let mut out: Vec<OutputLocation> = Vec::new();
    let mut li: usize = 0;
    while li < cfg.locations.len()
        invariant
            cfg.wf(),
            st.wf(*cfg),
            st.books@ == old(st).books@,
            st.deliveries == old(st).deliveries,
            st.builds == old(st).builds,
            st.slots == old(st).slots,
            st.consumed == old(st).consumed,
            0 <= li <= cfg.locations@.len(),
            out@.len() == li,
            cost <= MONEY_CAP,
            cap_add(cost as int, report_cost_model(*cfg, *old(st), li as int))
                == report_cost_model(*cfg, *old(st), 0),
            forall|i: int| 0 <= i < li ==> ((#[trigger] out@[i]).purchases is Some
                <==> cfg.locations@[i].market is Some),
            forall|i: int|
                0 <= i < li && cfg.locations@[i].market is Some ==> {
                    let listed = (#[trigger] out@[i]).purchases.unwrap()@;
                    let model = purchases_upto(
                        *old(st),
                        cfg.locations@[i].books@,
                        cfg.locations@[i].books@.len() as int,
                    );
                    &&& listed.len() == model.len()
                    &&& forall|e: int| 0 <= e < model.len() ==> (#[trigger] listed[
                        e]).quantity == model[e].0 && listed[e].price_low == model[e].1
                        && listed[e].price_high == model[e].2
                },
        decreases cfg.locations@.len() - li,
    {
        let location = &cfg.locations[li];

        // purchases: the consumed prefix of every book at this market;
        // what they cost stays out of the grand total, which sums only
        // installation costs and volume fees
        let mut purchase_cost: u128 = 0;
        let purchases: Option<Vec<OutputPurchase>> = if location.market.is_some() {
            let mut list: Vec<OutputPurchase> = Vec::new();
            let mut k: usize = 0;
            while k < location.books.len()
                invariant
                    cfg.wf(),
                    st.wf(*cfg),
                    st.books@ == old(st).books@,
                    st.deliveries == old(st).deliveries,
                    st.builds == old(st).builds,
                    st.slots == old(st).slots,
                    st.consumed == old(st).consumed,
                    0 <= li < cfg.locations@.len(),
                    location == &cfg.locations@[li as int],
                    0 <= k <= location.books@.len(),
                    purchase_cost <= MONEY_CAP,
                    list@.len() == purchases_upto(*old(st), location.books@, k as int).len(),
                    forall|e: int|
                        0 <= e < list@.len() ==> {
                            let model = purchases_upto(*old(st), location.books@, k as int);
                            (#[trigger] list@[e]).quantity == model[e].0 && list@[e].price_low
                                == model[e].1 && list@[e].price_high == model[e].2
                        },
                decreases location.books@.len() - k,
            {
                proof {
                    assert(cfg.location_wf(cfg.locations@[li as int]));
                }
                let (type_id, book_idx) = (location.books[k].0, location.books[k].1);
                let ghost pre = *st;
                let (quantity, stats) = st.books[book_idx].num_purchased_with_stats(
                    None,
                    &mut purchase_cost,
                );
                proof {
                    assert(st.books@[book_idx as int] == pre.books@[book_idx as int]);
                    assert(st.books@ =~= pre.books@);
                }
                if quantity > 0 {
                    list.push(
                        OutputPurchase {
                            item: find_name(type_names, Item::new(type_id)),
                            quantity,
                            price_low: stats.price_low,
                            price_high: stats.price_high,
                        },
                    );
                }
                proof {
                    let model_pre = purchases_upto(*old(st), location.books@, k as int);
                    let model_post = purchases_upto(*old(st), location.books@, k as int + 1);
                    if quantity > 0 {
                        assert(model_post =~= model_pre + seq![
                            (
                                quantity as int,
                                stats.price_low as int,
                                stats.price_high as int,
                            ),
                        ]);
                    } else {
                        assert(model_post =~= model_pre);
                    }
                }
                k = k + 1;
            }
            Some(list)
        } else {
            None
        };

        // builds: every line here with at least one committed job
        let ghost cost_loc0 = cost as int;
        let mut build_list: Vec<OutputBuild> = Vec::new();
        let mut k: usize = 0;
        while k < location.lines.len()
            invariant
                cfg.wf(),
                st.wf(*cfg),
                st.builds == old(st).builds,
                0 <= li < cfg.locations@.len(),
                location == &cfg.locations@[li as int],
                0 <= k <= location.lines@.len(),
                cost <= MONEY_CAP,
                cost_loc0 >= 0,
                cap_add(
                    cost as int,
                    lines_install_cost(*cfg, *old(st), location.lines@, k as int),
                ) == cap_add(
                    cost_loc0,
                    lines_install_cost(*cfg, *old(st), location.lines@, 0),
                ),
            decreases location.lines@.len() - k,
        {
            proof {
                assert(cfg.location_wf(cfg.locations@[li as int]));
                lemma_lines_install_cost_bounds(
                    *cfg,
                    *old(st),
                    location.lines@,
                    k as int + 1,
                );
            }
            let l = location.lines[k];
            let num_builds = st.builds[l];
            if num_builds > 0 {
                let line = &cfg.lines[l];
                proof {
                    assert(cfg.line_wf(cfg.lines@[l as int]));
                    crate::market::lemma_cap_add_assoc(
                        cost as int,
                        cap_mul_div(
                            cfg.lines@[l as int].installation_cost as int,
                            old(st).builds@[l as int] as int,
                            1,
                        ),
                        lines_install_cost(*cfg, *old(st), location.lines@, k as int + 1),
                    );
                    crate::lemma_cap_mul_div_bounds(
                        cfg.lines@[l as int].installation_cost as int,
                        old(st).builds@[l as int] as int,
                        1,
                    );
                }
                cost = crate::money_add(
                    cost,
                    crate::money_mul_div(line.installation_cost, num_builds as u128, 1),
                );
                build_list.push(
                    OutputBuild {
                        product: find_name(type_names, line.product),
                        blueprint: find_name(type_names, line.blueprint),
                        decryptor: match line.decryptor {
                            Some(d) => Some(find_name(type_names, d)),
                            None => None,
                        },
                        runs: line.runs_per_sequence,
                        sequences: line.num_sequences,
                        builds: num_builds,
                    },
                );
            }
            k = k + 1;
        }
        let builds: Option<Vec<OutputBuild>> = if build_list.len() > 0 {
            Some(build_list)
        } else {
            None
        };
        proof {
            lemma_lines_install_cost_bounds(*cfg, *old(st), location.lines@, 0);
            assert(lines_install_cost(
                *cfg,
                *old(st),
                location.lines@,
                location.lines@.len() as int,
            ) == 0);
        }

        // deliveries: what each departing pipe carries
        let ghost cost_del0 = cost as int;
        let mut delivery_list: Vec<OutputDeliveries> = Vec::new();
        let mut k: usize = 0;
        while k < location.export_pipes.len()
            invariant
                cfg.wf(),
                st.wf(*cfg),
                st.deliveries == old(st).deliveries,
                0 <= li < cfg.locations@.len(),
                location == &cfg.locations@[li as int],
                0 <= k <= location.export_pipes@.len(),
                cost <= MONEY_CAP,
                cost_del0 >= 0,
                cap_add(
                    cost as int,
                    pipes_fee(*cfg, *old(st), location.export_pipes@, k as int),
                ) == cap_add(cost_del0, pipes_fee(*cfg, *old(st), location.export_pipes@, 0)),
            decreases location.export_pipes@.len() - k,
        {
            proof {
                assert(cfg.location_wf(cfg.locations@[li as int]));
            }
            let p = location.export_pipes[k];
            proof {
                assert(crate::logistics::pipe_routes_ok(
                    cfg.routes@,
                    cfg.pipes@[p as int].routes@,
                ));
                assert forall|w: int| 0 <= w < cfg.routes@.len() implies (
                #[trigger] cfg.routes@[w]).rate.m3_rate <= MONEY_CAP by {}
            }
            let pipe = &cfg.pipes[p];
            let rate = pipe.delivery_rate(&cfg.routes);
            proof {
                crate::logistics::lemma_pipe_rate_bounds(cfg.routes@, cfg.pipes@[p as int].routes@);
            }
            let dst = pipe.dst(&cfg.routes);
            let first_route = pipe.routes[0];
            let ghost cost_pipe0 = cost as int;
            let ghost entries = st.deliveries@[p as int]@;
            let mut items: Vec<OutputDelivery> = Vec::new();
            let mut e: usize = 0;
            let num_entries = st.deliveries[p].len();
            while e < num_entries
                invariant
                    cfg.wf(),
                    st.wf(*cfg),
                    st.deliveries == old(st).deliveries,
                    0 <= li < cfg.locations@.len(),
                    0 <= p < st.deliveries@.len(),
                    rate.m3_rate <= MONEY_CAP,
                    rate.m3_rate == crate::logistics::pipe_rate_model(
                        cfg.routes@,
                        cfg.pipes@[p as int].routes@,
                    ).0,
                    entries == old(st).deliveries@[p as int]@,
                    num_entries == st.deliveries@[p as int]@.len(),
                    0 <= e <= num_entries,
                    cost <= MONEY_CAP,
                    cost_pipe0 >= 0,
                    cap_add(cost as int, entries_fee(*cfg, rate.m3_rate as int, entries, e as int))
                        == cap_add(
                        cost_pipe0,
                        entries_fee(*cfg, rate.m3_rate as int, entries, 0),
                    ),
                decreases num_entries - e,
            {
                let (item, quantity) = (
                    st.deliveries[p][e].0,
                    st.deliveries[p][e].1,
                );
                let volume = crate::ledger::get_qty(&cfg.volumes, item);
                // volume fee: rate times cubic metres times quantity
                let fee = crate::money_mul_div(
                    crate::money_mul_div(rate.m3_rate, volume as u128, QTY_DENOM),
                    quantity as u128,
                    1,
                );
                proof {
                    lemma_entries_fee_bounds(
                        *cfg,
                        rate.m3_rate as int,
                        entries,
                        e as int + 1,
                    );
                    crate::market::lemma_cap_add_assoc(
                        cost as int,
                        fee as int,
                        entries_fee(*cfg, rate.m3_rate as int, entries, e as int + 1),
                    );
                }
                cost = crate::money_add(cost, fee);
                items.push(
                    OutputDelivery { item: find_name(type_names, item), quantity },
                );
                e = e + 1;
            }
            proof {
                lemma_pipes_fee_bounds(
                    *cfg,
                    *old(st),
                    location.export_pipes@.skip(k as int + 1),
                    0,
                );
                lemma_pipes_fee_bounds(*cfg, *old(st), location.export_pipes@, k as int + 1);
                lemma_entries_fee_bounds(*cfg, rate.m3_rate as int, entries, 0);
                crate::market::lemma_cap_add_assoc(
                    cost_pipe0,
                    entries_fee(*cfg, rate.m3_rate as int, entries, 0),
                    pipes_fee(*cfg, *old(st), location.export_pipes@, k as int + 1),
                );
            }
            if items.len() > 0 {
                delivery_list.push(
                    OutputDeliveries {
                        destination: find_name_of_location(cfg, dst),
                        service_name: cfg.routes[first_route].service_name.clone(),
                        items,
                    },
                );
            }
            k = k + 1;
        }
        let deliveries: Option<Vec<OutputDeliveries>> = if delivery_list.len() > 0 {
            Some(delivery_list)
        } else {
            None
        };
        proof {
            // fold this location's two components into the running total
            assert forall|w: int| 0 <= w < cfg.routes@.len() implies (
            #[trigger] cfg.routes@[w]).rate.m3_rate <= MONEY_CAP by {}
            let lcost = lines_install_cost(*cfg, *old(st), location.lines@, 0);
            let pfee = pipes_fee(*cfg, *old(st), location.export_pipes@, 0);
            let rest = report_cost_model(*cfg, *old(st), li as int + 1);
            assert(pipes_fee(
                *cfg,
                *old(st),
                location.export_pipes@,
                location.export_pipes@.len() as int,
            ) == 0);
            lemma_pipes_fee_bounds(*cfg, *old(st), location.export_pipes@, 0);
            lemma_report_cost_bounds(*cfg, *old(st), li as int + 1);
            crate::market::lemma_cap_add_assoc(cap_add(cost_loc0, lcost), pfee, rest);
            crate::market::lemma_cap_add_assoc(cost_loc0, lcost, cap_add(pfee, rest));
            crate::market::lemma_cap_add_assoc(lcost, pfee, rest);
        }

        // assets that still fall short of their target
        let mut missing: Vec<OutputAssetTarget> = Vec::new();
        let mut k: usize = 0;
        let num_targets = cfg.assets_target[li].len();
        while k < num_targets
            invariant
                cfg.wf(),
                st.wf(*cfg),
                0 <= li < cfg.locations@.len(),
                num_targets == cfg.assets_target@[li as int]@.len(),
                0 <= k <= num_targets,
            decreases num_targets - k,
        {
            let (item, target) = (
                cfg.assets_target[li][k].0,
                cfg.assets_target[li][k].1,
            );
            let current: i64 = num_available(cfg, st, li, item, None);
            let is_missing: bool = if target > i64::MAX as u64 {
                true
            } else {
                current < target as i64
            };
            if is_missing {
                missing.push(
                    OutputAssetTarget { item: find_name(type_names, item), target, current },
                );
            }
            k = k + 1;
        }
        let missing_assets: Option<Vec<OutputAssetTarget>> = if missing.len() > 0 {
            Some(missing)
        } else {
            None
        };

        out.push(
            OutputLocation {
                location: location.name.clone(),
                purchases,
                builds,
                deliveries,
                missing_assets,
            },
        );
        li = li + 1;
    }
    OutputLocations { cost, locations: out }
}

/// The display name of a location of the plan.
fn find_name_of_location(cfg: &PlanCfg, loc: usize) -> (r: String) {
    if loc < cfg.locations.len() {
        cfg.locations[loc].name.clone()
    } else {
        String::new()
    }
}

} // verus!
