use vstd::prelude::*;

use crate::catalog::Line;
use crate::config::{Config, ManufacturingValue, ProductionLineExportKind};
use crate::item::Item;
use crate::kinds::Error;
use crate::logistics::{pipe_routes_ok, DeliveryPipe, DeliveryRoute};
use crate::market::{MarketOrder, TypeMarketOrders};
use crate::ledger::lookup_qty;
use crate::plan::{
    cap_u64, count_upto, hop_src_count_upto, in_seq, lemma_cap_u64_step, lemma_count_upto_nonneg,
    lemma_in_seq_push, lemma_mats_target_nonneg, lemma_mul_nonneg, lemma_mul_succ,
    lemma_pipe_stop_count_nonneg, lemma_target_upto_nonneg, material_reaches, mats_target_upto,
    pipe_stop_count, src_route_dst, target_upto, Location, Material, MarketSrc, PlanCfg,
    PlanState, ProductionLine,
};
use crate::projection::{DbLineTransformed, DAY_SECONDS};
use crate::{MONEY_CAP, RATE_DENOM};

verus! {

/// One location's order book for one item type, as delivered by the
/// market snapshot: orders cheapest-first (prices in money units, volumes
/// in thousandths) and the book's total depth in thousandths.
#[derive(Debug, Clone)]
pub struct MarketSnapshot {
    pub location: u64,
    pub type_id: u32,
    pub orders: Vec<MarketOrder>,
    pub total: u64,
}

fn find_u64(v: &Vec<(u64, usize)>, key: u64) -> (r: Option<usize>)
    ensures
        r matches Some(i) ==> exists|j: int|
            0 <= j < v@.len() && (#[trigger] v@[j]) == (key, i),
{
    let mut i: usize = 0;
    while i < v.len()
        decreases v@.len() - i,
    {
        if v[i].0 == key {
            return Some(v[i].1);
        }
        i = i + 1;
    }
    None
}

fn find_u32(v: &Vec<(u32, usize)>, key: u32) -> (r: Option<usize>)
    ensures
        r matches Some(i) ==> exists|j: int|
            0 <= j < v@.len() && (#[trigger] v@[j]) == (key, i),
{
    let mut i: usize = 0;
    while i < v.len()
        decreases v@.len() - i,
    {
        if v[i].0 == key {
            return Some(v[i].1);
        }
        i = i + 1;
    }
    None
}

fn find_price(v: &Vec<(u32, u128)>, key: u32) -> (r: Option<u128>)
    ensures
        r matches Some(p) ==> exists|j: int|
            0 <= j < v@.len() && (#[trigger] v@[j]) == (key, p),
{
    let mut i: usize = 0;
    while i < v.len()
        decreases v@.len() - i,
    {
        if v[i].0 == key {
            return Some(v[i].1);
        }
        i = i + 1;
    }
    None
}

fn find_kind_values(v: &Vec<(u32, ManufacturingValue)>, key: u32) -> (r: Option<
    ManufacturingValue,
>)
    ensures
        r matches Some(m) ==> exists|j: int|
            0 <= j < v@.len() && (#[trigger] v@[j]) == (key, m),
{
    let mut i: usize = 0;
    while i < v.len()
        decreases v@.len() - i,
    {
        if v[i].0 == key {
            return Some(v[i].1);
        }
        i = i + 1;
    }
    None
}

fn find_line(v: &Vec<(u32, Line)>, key: u32) -> (r: Option<usize>)
    ensures
        r matches Some(i) ==> i < v@.len() && v@[i as int].0 == key,
{
    let mut i: usize = 0;
    while i < v.len()
        decreases v@.len() - i,
    {
        if v[i].0 == key {
            return Some(i);
        }
        i = i + 1;
    }
    None
}

fn copy_items(v: &Vec<(Item, u64)>) -> (r: Vec<(Item, u64)>)
    ensures
        r@ == v@,
{
    let mut r: Vec<(Item, u64)> = Vec::new();
    let mut i: usize = 0;
    while i < v.len()
        invariant
            0 <= i <= v@.len(),
            r@ == v@.take(i as int),
        decreases v@.len() - i,
    {
        r.push(v[i]);
        proof {
            assert(v@.take(i as int).push(v@[i as int]) =~= v@.take(i as int + 1));
        }
        i = i + 1;
    }
    proof {
        assert(v@.take(v@.len() as int) =~= v@);
    }
    r
}

fn copy_signed_items(v: &Vec<(Item, i64)>) -> (r: Vec<(Item, i64)>)
    ensures
        r@ == v@,
{
    let mut r: Vec<(Item, i64)> = Vec::new();
    let mut i: usize = 0;
    while i < v.len()
        invariant
            0 <= i <= v@.len(),
            r@ == v@.take(i as int),
        decreases v@.len() - i,
    {
        r.push(v[i]);
        proof {
            assert(v@.take(i as int).push(v@[i as int]) =~= v@.take(i as int + 1));
        }
        i = i + 1;
    }
    proof {
        assert(v@.take(v@.len() as int) =~= v@);
    }
    r
}

fn copy_line(l: &Line) -> (r: Line)
    ensures
        r.installation_minerals@ == l.installation_minerals@,
        r.minerals@ == l.minerals@,
        r.portion == l.portion,
        r.duration == l.duration,
        r.runs == l.runs,
        r.cost_multiplier == l.cost_multiplier,
{
    Line {
        installation_minerals: copy_items(&l.installation_minerals),
        minerals: copy_items(&l.minerals),
        portion: l.portion,
        duration: l.duration,
        runs: l.runs,
        cost_multiplier: l.cost_multiplier,
    }
}

/// Any two orders of an adjacently-sorted book are in order.
proof fn lemma_sorted_range(orders: Seq<MarketOrder>, i: int, j: int)
    requires
        forall|k: int| 1 <= k < orders.len() ==> (#[trigger] orders[k]).price >= orders[k
            - 1].price,
        0 <= i <= j < orders.len(),
    ensures
        orders[i].price <= orders[j].price,
    decreases j - i,
{
    if i < j {
        lemma_sorted_range(orders, i, j - 1);
        assert(orders[j].price >= orders[j - 1].price);
    }
}

/// Checks one order book: sorted cheapest-first, positive volumes, prices
/// within the money cap, nothing reserved yet.
fn check_book(book: &TypeMarketOrders) -> (r: bool)
    ensures
        r ==> book.wf(),
{
    let mut i: usize = 0;
    while i < book.orders.len()
        invariant
            0 <= i <= book.orders@.len(),
            forall|k: int| 0 <= k < i ==> (#[trigger] book.orders@[k]).volume > 0,
            forall|k: int| 0 <= k < i ==> (#[trigger] book.orders@[k]).price <= MONEY_CAP,
            forall|k: int| 1 <= k < i ==> (#[trigger] book.orders@[k]).price >= book.orders@[k
                - 1].price,
        decreases book.orders@.len() - i,
    {
        if book.orders[i].volume == 0 {
            return false;
        }
        if book.orders[i].price > MONEY_CAP {
            return false;
        }
        if i > 0 && book.orders[i].price < book.orders[i - 1].price {
            return false;
        }
        i = i + 1;
    }
    proof {
        assert forall|a: int, b: int| 0 <= a <= b < book.orders@.len() implies book.orders@[
            a].price <= book.orders@[b].price by {
            lemma_sorted_range(book.orders@, a, b);
        }
    }
    true
}

fn find_assets(v: &Vec<(u64, Vec<(Item, i64)>)>, key: u64) -> (r: Option<usize>)
    ensures
        r matches Some(i) ==> i < v@.len(),
{
    let mut i: usize = 0;
    while i < v.len()
        decreases v@.len() - i,
    {
        if v[i].0 == key {
            return Some(i);
        }
        i = i + 1;
    }
    None
}

fn contains_usize(v: &Vec<usize>, key: usize) -> (r: bool)
    ensures
        r == crate::plan::in_seq(v@, key),
{
    let mut i: usize = 0;
    while i < v.len()
        invariant
            0 <= i <= v@.len(),
            forall|j: int| 0 <= j < i ==> (#[trigger] v@[j]) != key,
        decreases v@.len() - i,
    {
        if v[i] == key {
            return true;
        }
        i = i + 1;
    }
    false
}

/// What one cell of the target ledger holds while line `l` is being
/// processed: everything earlier lines demanded, the line's own product
/// demand (once its export stops are walked), and its materials `[0..m)`.
spec fn cell_base(
    lines: Seq<ProductionLine>,
    routes: Seq<DeliveryRoute>,
    pipes: Seq<DeliveryPipe>,
    l: int,
    m: int,
    loc: int,
    it: Item,
) -> int {
    let line = lines[l];
    target_upto(lines, routes, pipes, l, loc, it) + (
    if line.export_kind == ProductionLineExportKind::Product && it == line.product {
        crate::sat_mul64(line.portion as int, line.parallel as int) * pipe_stop_count(
            routes,
            pipes,
            line.export_pipe as int,
            loc,
        )
    } else {
        0int
    }) + mats_target_upto(lines, routes, pipes, l, m, loc, it)
}

proof fn lemma_cell_base_nonneg(
    lines: Seq<ProductionLine>,
    routes: Seq<DeliveryRoute>,
    pipes: Seq<DeliveryPipe>,
    l: int,
    m: int,
    loc: int,
    it: Item,
)
    requires
        m >= 0,
    ensures
        cell_base(lines, routes, pipes, l, m, loc, it) >= 0,
{
    lemma_target_upto_nonneg(lines, routes, pipes, l, loc, it);
    lemma_mats_target_nonneg(lines, routes, pipes, l, m, loc, it);
    let line = lines[l];
    if line.export_kind == ProductionLineExportKind::Product && it == line.product {
        lemma_pipe_stop_count_nonneg(routes, pipes, line.export_pipe as int, loc);
        lemma_mul_nonneg(
            crate::sat_mul64(line.portion as int, line.parallel as int),
            pipe_stop_count(routes, pipes, line.export_pipe as int, loc),
        );
    }
}

/// Every hop already processed has its destination recorded.
spec fn seen_complete(
    routes: Seq<DeliveryRoute>,
    pipes: Seq<DeliveryPipe>,
    srcs: Seq<MarketSrc>,
    seen: Seq<usize>,
    q: int,
    s: int,
) -> bool {
    forall|k: int, h: int|
        0 <= k < srcs.len() && 0 <= h < pipes[srcs[k].pipe as int].routes@.len() && (k < q || (k
            == q && h < s)) ==> in_seq(
            seen,
            #[trigger] src_route_dst(routes, pipes, srcs, k, h) as usize,
        )
}

/// The stop list a pipe walk materializes counts sources exactly as the
/// hop-source count does.
proof fn lemma_stops_count_bridge(
    routes: Seq<DeliveryRoute>,
    hops: Seq<usize>,
    stops: Seq<usize>,
    j: int,
    loc: int,
)
    requires
        stops.len() == hops.len() + 1,
        forall|i: int| 0 <= i < hops.len() ==> #[trigger] stops[i] == routes[hops[
            i] as int].src_location,
        0 <= j <= hops.len(),
    ensures
        count_upto(stops, j, loc) == hop_src_count_upto(routes, hops, j, loc),
    decreases j,
{
    if j <= 0 {
    } else {
        lemma_stops_count_bridge(routes, hops, stops, j - 1, loc);
        assert(stops[j - 1] == routes[hops[j - 1] as int].src_location);
    }
}

/// Builds the whole plan from the configuration, the projected catalog
/// lines (keyed by production-line id), the item volume table, the price
/// and cost-index snapshots, the market order books, and the asset lists.
/// Identifiers are resolved onto arena indices, ranks are assigned over
/// the acyclic sub-line graph, the per-location asset targets are
/// derived, and the finished plan is checked whole: only a plan that
/// passes every well-formedness check is returned.
pub fn new_locations(
    cfg: &Config,
    db_lines: &Vec<(u32, Line)>,
    volumes: &Vec<(Item, u64)>,
    adjusted_prices: &Vec<(u32, u128)>,
    cost_indices: &Vec<(u32, ManufacturingValue)>,
    market_orders: &Vec<MarketSnapshot>,
    assets: &Vec<(u64, Vec<(Item, i64)>)>,
) -> (r: Result<(PlanCfg, PlanState), Error>)
    ensures
        r matches Ok(pair) ==> {
            &&& pair.0.wf()
            &&& pair.1.wf(pair.0)
            &&& pair.0.min_profit == cfg.min_profit
            &&& pair.0.min_margin == cfg.min_margin
            &&& pair.1.slots == cfg.slots
            &&& forall|i: int| 0 <= i < pair.1.builds@.len() ==> (#[trigger] pair.1.builds@[i])
                == 0
            &&& forall|b: int| 0 <= b < pair.1.books@.len() ==> (#[trigger] pair.1.books@[
                b]).reserved == 0 && pair.1.books@[b].reserved_current == 0
            &&& forall|p: int| 0 <= p < pair.1.deliveries@.len()
                ==> (#[trigger] pair.1.deliveries@[p])@.len() == 0
            &&& pair.0.locations@.len() == cfg.locations@.len()
            &&& forall|i: int| 0 <= i < cfg.locations@.len() ==> {
                let built = #[trigger] pair.0.locations@[i];
                &&& built.id == cfg.locations@[i].id
                &&& built.name@ == cfg.locations@[i].name@
                &&& built.system_id == cfg.locations@[i].system_id
                &&& built.market == cfg.locations@[i].market
            }
            &&& forall|loc: int, it: Item|
                0 <= loc < pair.0.locations@.len() ==> #[trigger] lookup_qty(
                    pair.0.assets_target@[loc]@,
                    it,
                ) == cap_u64(target_upto(
                    pair.0.lines@,
                    pair.0.routes@,
                    pair.0.pipes@,
                    pair.0.lines@.len() as int,
                    loc,
                    it,
                ))
        },
{
    let n: usize = cfg.locations.len();

    // location id resolution
    let mut loc_ids: Vec<(u64, usize)> = Vec::new();
    let mut i: usize = 0;
    while i < n
        invariant
            0 <= i <= n,
            n == cfg.locations@.len(),
            forall|j: int| 0 <= j < loc_ids@.len() ==> (#[trigger] loc_ids@[j]).1 < n,
        decreases n - i,
    {
        loc_ids.push((cfg.locations[i].id, i));
        i = i + 1;
    }

    // order books
    let mut books: Vec<TypeMarketOrders> = Vec::new();
    let mut loc_books: Vec<Vec<(u32, usize)>> = Vec::new();
    let mut i: usize = 0;
    while i < n
        invariant
            loc_books@.len() == i,
            0 <= i <= n,
            forall|j: int| 0 <= j < i ==> (#[trigger] loc_books@[j])@.len() == 0,
        decreases n - i,
    {
        loc_books.push(Vec::new());
        i = i + 1;
    }
    let mut i: usize = 0;
    while i < market_orders.len()
        invariant
            0 <= i <= market_orders@.len(),
            n == cfg.locations@.len(),
            loc_books@.len() == n,
            forall|j: int| 0 <= j < loc_ids@.len() ==> (#[trigger] loc_ids@[j]).1 < n,
            forall|b: int| 0 <= b < books@.len() ==> (#[trigger] books@[b]).wf(),
            forall|b: int| 0 <= b < books@.len() ==> (#[trigger] books@[b]).reserved == 0
                && books@[b].reserved_current == 0,
            forall|li: int, j: int|
                0 <= li < n && 0 <= j < loc_books@[li]@.len() ==> (#[trigger] loc_books@[li]@[
                    j]).1 < books@.len(),
        decreases market_orders@.len() - i,
    {
        let snapshot = &market_orders[i];
        match find_u64(&loc_ids, snapshot.location) {
            Some(li) => {
                if cfg.locations[li].market.is_some() {
                    let book = TypeMarketOrders::new(copy_orders(&snapshot.orders), snapshot.total);
                    if !check_book(&book) {
                        return Err(Error::InputParse);
                    }
                    let idx = books.len();
                    books.push(book);
                    loc_books[li].push((snapshot.type_id, idx));
                }
            },
            None => {},
        }
        i = i + 1;
    }
    let num_books: usize = books.len();

    // routes
    let mut routes: Vec<DeliveryRoute> = Vec::new();
    let mut route_ids: Vec<(u32, usize)> = Vec::new();
    let mut loc_routes: Vec<Vec<usize>> = Vec::new();
    let mut i: usize = 0;
    while i < n
        invariant
            loc_routes@.len() == i,
            0 <= i <= n,
        decreases n - i,
    {
        loc_routes.push(Vec::new());
        i = i + 1;
    }
    let mut li: usize = 0;
    while li < n
        invariant
            0 <= li <= n,
            n == cfg.locations@.len(),
            loc_routes@.len() == n,
            forall|j: int| 0 <= j < loc_ids@.len() ==> (#[trigger] loc_ids@[j]).1 < n,
            forall|j: int| 0 <= j < route_ids@.len() ==> (#[trigger] route_ids@[j]).1
                < routes@.len(),
            forall|k: int| 0 <= k < routes@.len() ==> {
                let rt = #[trigger] routes@[k];
                rt.src_location < n && rt.dst_location < n && rt.rate.m3_rate <= MONEY_CAP
            },
        decreases n - li,
    {
        let mut k: usize = 0;
        while k < cfg.locations[li].routes.len()
            invariant
                0 <= li < n,
                0 <= k <= cfg.locations@[li as int].routes@.len(),
                n == cfg.locations@.len(),
                loc_routes@.len() == n,
                forall|j: int| 0 <= j < loc_ids@.len() ==> (#[trigger] loc_ids@[j]).1 < n,
                forall|j: int| 0 <= j < route_ids@.len() ==> (#[trigger] route_ids@[j]).1
                    < routes@.len(),
                forall|m: int| 0 <= m < routes@.len() ==> {
                    let rt = #[trigger] routes@[m];
                    rt.src_location < n && rt.dst_location < n && rt.rate.m3_rate <= MONEY_CAP
                },
            decreases cfg.locations@[li as int].routes@.len() - k,
        {
            let (dst_id, route_cfg) = (
                cfg.locations[li].routes[k].0,
                &cfg.locations[li].routes[k].1,
            );
            let dst = match find_u64(&loc_ids, dst_id) {
                Some(d) => d,
                None => {
                    return Err(Error::ConfigInvalid);
                },
            };
            if route_cfg.rate.m3_rate > MONEY_CAP {
                return Err(Error::InputParse);
            }
            let idx = routes.len();
            routes.push(
                DeliveryRoute {
                    id: route_cfg.id,
                    service_name: clone_string(&route_cfg.service_name),
                    src_location: li,
                    dst_location: dst,
                    rate: route_cfg.rate,
                },
            );
            route_ids.push((route_cfg.id, idx));
            loc_routes[li].push(idx);
            k = k + 1;
        }
        li = li + 1;
    }

    // pipes
    let mut pipes: Vec<DeliveryPipe> = Vec::new();
    let mut pipe_ids: Vec<(u32, usize)> = Vec::new();
    let mut loc_imports: Vec<Vec<usize>> = Vec::new();
    let mut loc_exports: Vec<Vec<usize>> = Vec::new();
    let mut i: usize = 0;
    while i < n
        invariant
            loc_imports@.len() == i,
            loc_exports@.len() == i,
            0 <= i <= n,
        decreases n - i,
    {
        loc_imports.push(Vec::new());
        loc_exports.push(Vec::new());
        i = i + 1;
    }
    let mut li: usize = 0;
    while li < n
        invariant
            0 <= li <= n,
            n == cfg.locations@.len(),
            loc_imports@.len() == n,
            loc_exports@.len() == n,
            forall|j: int| 0 <= j < route_ids@.len() ==> (#[trigger] route_ids@[j]).1
                < routes@.len(),
            forall|j: int| 0 <= j < pipe_ids@.len() ==> (#[trigger] pipe_ids@[j]).1
                < pipes@.len(),
            forall|k: int| 0 <= k < pipes@.len() ==> pipe_routes_ok(
                routes@,
                (#[trigger] pipes@[k]).routes@,
            ),
            forall|m: int| 0 <= m < routes@.len() ==> {
                let rt = #[trigger] routes@[m];
                rt.src_location < n && rt.dst_location < n && rt.rate.m3_rate <= MONEY_CAP
            },
        decreases n - li,
    {
        let mut k: usize = 0;
        while k < cfg.locations[li].pipes.len()
            invariant
                0 <= li < n,
                0 <= k <= cfg.locations@[li as int].pipes@.len(),
                n == cfg.locations@.len(),
                loc_imports@.len() == n,
                loc_exports@.len() == n,
                forall|j: int| 0 <= j < route_ids@.len() ==> (#[trigger] route_ids@[j]).1
                    < routes@.len(),
                forall|j: int| 0 <= j < pipe_ids@.len() ==> (#[trigger] pipe_ids@[j]).1
                    < pipes@.len(),
                forall|m: int| 0 <= m < pipes@.len() ==> pipe_routes_ok(
                    routes@,
                    (#[trigger] pipes@[m]).routes@,
                ),
                forall|m: int| 0 <= m < routes@.len() ==> {
                    let rt = #[trigger] routes@[m];
                    rt.src_location < n && rt.dst_location < n && rt.rate.m3_rate <= MONEY_CAP
                },
            decreases cfg.locations@[li as int].pipes@.len() - k,
        {
            let pipe_id = cfg.locations[li].pipes[k].0;
            let idx: usize = match find_u32(&pipe_ids, pipe_id) {
                Some(existing) => existing,
                None => {
                    let route_id_list = &cfg.locations[li].pipes[k].1;
                    if route_id_list.len() == 0 {
                        return Err(Error::ConfigInvalid);
                    }
                    let mut hops: Vec<usize> = Vec::new();
                    let mut m: usize = 0;
                    while m < route_id_list.len()
                        invariant
                            0 <= m <= route_id_list@.len(),
                            hops@.len() == m,
                            forall|q: int| 0 <= q < route_ids@.len() ==> (
                            #[trigger] route_ids@[q]).1 < routes@.len(),
                            forall|q: int| 0 <= q < hops@.len() ==> (#[trigger] hops@[q])
                                < routes@.len(),
                        decreases route_id_list@.len() - m,
                    {
                        match find_u32(&route_ids, route_id_list[m]) {
                            Some(ri) => {
                                hops.push(ri);
                            },
                            None => {
                                return Err(Error::ConfigInvalid);
                            },
                        }
                        m = m + 1;
                    }
                    let created = pipes.len();
                    pipes.push(DeliveryPipe { id: pipe_id, routes: hops });
                    pipe_ids.push((pipe_id, created));
                    created
                },
            };
            let src = pipes[idx].src(&routes);
            let dst = pipes[idx].dst(&routes);
            if src == li {
                loc_exports[li].push(idx);
            } else if dst == li {
                loc_imports[li].push(idx);
            } else {
                return Err(Error::ConfigInvalid);
            }
            k = k + 1;
        }
        li = li + 1;
    }

    // production line id resolution (creation order)
    let mut line_ids: Vec<(u32, usize)> = Vec::new();
    let mut total_lines: usize = 0;
    let mut li: usize = 0;
    while li < n
        invariant
            0 <= li <= n,
            n == cfg.locations@.len(),
            forall|j: int| 0 <= j < line_ids@.len() ==> (#[trigger] line_ids@[j]).1
                < total_lines,
        decreases n - li,
    {
        match &cfg.locations[li].production {
            Some(production) => {
                let mut k: usize = 0;
                while k < production.production_lines.len()
                    invariant
                        0 <= k <= production.production_lines@.len(),
                        forall|j: int| 0 <= j < line_ids@.len() ==> (#[trigger] line_ids@[j]).1
                            < total_lines,
                    decreases production.production_lines@.len() - k,
                {
                    if total_lines == usize::MAX {
                        return Err(Error::ConfigInvalid);
                    }
                    line_ids.push((production.production_lines[k].id, total_lines));
                    total_lines = total_lines + 1;
                    k = k + 1;
                }
            },
            None => {},
        }
        li = li + 1;
    }

    // production lines
    let mut lines: Vec<ProductionLine> = Vec::new();
    let mut loc_lines: Vec<Vec<usize>> = Vec::new();
    let mut i: usize = 0;
    while i < n
        invariant
            loc_lines@.len() == i,
            0 <= i <= n,
        decreases n - i,
    {
        loc_lines.push(Vec::new());
        i = i + 1;
    }
    let mut li: usize = 0;
    while li < n
        invariant
            0 <= li <= n,
            n == cfg.locations@.len(),
            loc_lines@.len() == n,
            loc_books@.len() == n,
            forall|li2: int, j: int|
                0 <= li2 < n && 0 <= j < loc_books@[li2]@.len() ==> (#[trigger] loc_books@[
                    li2]@[j]).1 < num_books,
            forall|j: int| 0 <= j < line_ids@.len() ==> (#[trigger] line_ids@[j]).1
                < total_lines,
            forall|j: int| 0 <= j < pipe_ids@.len() ==> (#[trigger] pipe_ids@[j]).1
                < pipes@.len(),
            forall|m: int| 0 <= m < pipes@.len() ==> pipe_routes_ok(
                routes@,
                (#[trigger] pipes@[m]).routes@,
            ),
            forall|m: int| 0 <= m < routes@.len() ==> {
                let rt = #[trigger] routes@[m];
                rt.src_location < n && rt.dst_location < n && rt.rate.m3_rate <= MONEY_CAP
            },
        decreases n - li,
    {
        let has_production = cfg.locations[li].production.is_some();
        if has_production {
            let num_cfg_lines = match &cfg.locations[li].production {
                Some(p) => p.production_lines.len(),
                None => 0,
            };
            let mut k: usize = 0;
            while k < num_cfg_lines
                invariant
                    0 <= li < n,
                    0 <= k <= num_cfg_lines,
                    n == cfg.locations@.len(),
                    cfg.locations@[li as int].production is Some,
                    num_cfg_lines == cfg.locations@[
                        li as int].production.unwrap().production_lines@.len(),
                    loc_lines@.len() == n,
                    loc_books@.len() == n,
                    forall|j: int| 0 <= j < line_ids@.len() ==> (#[trigger] line_ids@[j]).1
                        < total_lines,
                    forall|j: int| 0 <= j < pipe_ids@.len() ==> (#[trigger] pipe_ids@[j]).1
                        < pipes@.len(),
                    forall|m: int| 0 <= m < pipes@.len() ==> pipe_routes_ok(
                        routes@,
                        (#[trigger] pipes@[m]).routes@,
                    ),
                    forall|m: int| 0 <= m < routes@.len() ==> {
                        let rt = #[trigger] routes@[m];
                        rt.src_location < n && rt.dst_location < n && rt.rate.m3_rate
                            <= MONEY_CAP
                    },
                    forall|li2: int, j: int|
                        0 <= li2 < n && 0 <= j < loc_books@[li2]@.len() ==> (
                        #[trigger] loc_books@[li2]@[j]).1 < num_books,
                decreases num_cfg_lines - k,
            {
                let pl = match &cfg.locations[li].production {
                    Some(p) => &p.production_lines[k],
                    None => {
                        proof {
                            assert(false);
                        }
                        return Err(Error::ConfigInvalid);
                    },
                };
                let export_pipe = match find_u32(&pipe_ids, pl.export_pipe_id) {
                    Some(p) => p,
                    None => {
                        return Err(Error::ConfigInvalid);
                    },
                };
                let db_idx = match find_line(db_lines, pl.id) {
                    Some(d) => d,
                    None => {
                        return Err(Error::CatalogMiss);
                    },
                };
                let inner = copy_line(&db_lines[db_idx].1);
                if cfg.daily_flex_time > u64::MAX - DAY_SECONDS || inner.duration > u64::MAX
                    - DAY_SECONDS - cfg.daily_flex_time {
                    return Err(Error::Unimplemented);
                }
                let dbt = DbLineTransformed::new(inner, cfg.max_time, cfg.daily_flex_time);

                // installation cost: estimated value times index times
                // the line's cost multiplier
                let installation_minerals = dbt.installation_minerals();
                let mut eiv: u128 = 0;
                let mut m: usize = 0;
                while m < installation_minerals.len()
                    invariant
                        0 <= m <= installation_minerals@.len(),
                        eiv <= MONEY_CAP,
                    decreases installation_minerals@.len() - m,
                {
                    let (mineral, quantity) = (
                        installation_minerals[m].0,
                        installation_minerals[m].1,
                    );
                    let price = match find_price(adjusted_prices, mineral.type_id) {
                        Some(p) => p,
                        None => {
                            return Err(Error::CatalogMiss);
                        },
                    };
                    if price > MONEY_CAP {
                        return Err(Error::InputParse);
                    }
                    eiv = crate::money_add(eiv, crate::money_mul_div(price, quantity as u128, 1));
                    m = m + 1;
                }
                let indices = match find_kind_values(cost_indices, cfg.locations[li].system_id) {
                    Some(v) => v,
                    None => {
                        return Err(Error::CatalogMiss);
                    },
                };
                let installation_cost = crate::money_mul_div(
                    crate::money_mul_div(eiv, indices.kind_value(pl.kind) as u128, RATE_DENOM),
                    dbt.cost_multiplier() as u128,
                    RATE_DENOM,
                );

                let export_rate = pipes[export_pipe].delivery_rate(&routes);
                let export_dst = pipes[export_pipe].dst(&routes);
                let export_book: Option<usize> = match pl.export_kind {
                    ProductionLineExportKind::Product => {
                        if cfg.locations[export_dst].market.is_none() {
                            return Err(Error::ConfigInvalid);
                        }
                        get_book_checked(&loc_books[export_dst], pl.transput.product.type_id)
                    },
                    ProductionLineExportKind::Intermediate => None,
                };

                // the bill of materials with its sources
                let minerals = dbt.minerals();
                let mut materials: Vec<Material> = Vec::new();
                let mut m: usize = 0;
                while m < minerals.len()
                    invariant
                        0 <= m <= minerals@.len(),
                        0 <= li < n,
                        n == cfg.locations@.len(),
                        loc_books@.len() == n,
                        forall|j: int| 0 <= j < line_ids@.len() ==> (#[trigger] line_ids@[j]).1
                            < total_lines,
                        forall|j: int| 0 <= j < pipe_ids@.len() ==> (#[trigger] pipe_ids@[j]).1
                            < pipes@.len(),
                        forall|q: int| 0 <= q < pipes@.len() ==> pipe_routes_ok(
                            routes@,
                            (#[trigger] pipes@[q]).routes@,
                        ),
                        forall|q: int| 0 <= q < routes@.len() ==> {
                            let rt = #[trigger] routes@[q];
                            rt.src_location < n && rt.dst_location < n && rt.rate.m3_rate
                                <= MONEY_CAP
                        },
                        forall|li2: int, j: int|
                            0 <= li2 < n && 0 <= j < loc_books@[li2]@.len() ==> (
                            #[trigger] loc_books@[li2]@[j]).1 < num_books,
                    decreases minerals@.len() - m,
                {
                    let (mineral, quantity) = (minerals[m].0, minerals[m].1);
                    let from_line = find_u32_in_pairs(
                        &pl.import_src_production_line_ids,
                        mineral.type_id,
                    );
                    match from_line {
                        Some(line_id) => {
                            let sub = match find_u32(&line_ids, line_id) {
                                Some(s) => s,
                                None => {
                                    return Err(Error::ConfigInvalid);
                                },
                            };
                            materials.push(
                                Material {
                                    item: mineral,
                                    quantity,
                                    source_line: Some(sub),
                                    market_srcs: Vec::new(),
                                },
                            );
                        },
                        None => {
                            if !mineral.is_marketable() {
                                return Err(Error::ConfigInvalid);
                            }
                            let mut srcs: Vec<MarketSrc> = Vec::new();
                            let mut q: usize = 0;
                            while q < pl.import_src_market_pipe_ids.len()
                                invariant
                                    0 <= q <= pl.import_src_market_pipe_ids@.len(),
                                    n == cfg.locations@.len(),
                                    loc_books@.len() == n,
                                    forall|j: int| 0 <= j < pipe_ids@.len() ==> (
                                    #[trigger] pipe_ids@[j]).1 < pipes@.len(),
                                    forall|w: int| 0 <= w < pipes@.len() ==> pipe_routes_ok(
                                        routes@,
                                        (#[trigger] pipes@[w]).routes@,
                                    ),
                                    forall|w: int| 0 <= w < routes@.len() ==> {
                                        let rt = #[trigger] routes@[w];
                                        rt.src_location < n && rt.dst_location < n
                                            && rt.rate.m3_rate <= MONEY_CAP
                                    },
                                    forall|li2: int, j: int|
                                        0 <= li2 < n && 0 <= j < loc_books@[li2]@.len() ==> (
                                        #[trigger] loc_books@[li2]@[j]).1 < num_books,
                                decreases pl.import_src_market_pipe_ids@.len() - q,
                            {
                                let pipe_id = pl.import_src_market_pipe_ids[q];
                                match find_u32(&pipe_ids, pipe_id) {
                                    Some(pidx) => {
                                        let src_loc = pipes[pidx].src(&routes);
                                        match get_book_checked(
                                            &loc_books[src_loc],
                                            mineral.type_id,
                                        ) {
                                            Some(bidx) => {
                                                let rate = pipes[pidx].delivery_rate(&routes);
                                                srcs.push(
                                                    MarketSrc { pipe: pidx, book: bidx, rate },
                                                );
                                            },
                                            None => {},
                                        }
                                    },
                                    None => {
                                        return Err(Error::ConfigInvalid);
                                    },
                                }
                                q = q + 1;
                            }
                            if srcs.len() == 0 {
                                return Err(Error::ConfigInvalid);
                            }
                            materials.push(
                                Material {
                                    item: mineral,
                                    quantity,
                                    source_line: None,
                                    market_srcs: srcs,
                                },
                            );
                        },
                    }
                    m = m + 1;
                }

                let line_idx = lines.len();
                lines.push(
                    ProductionLine {
                        id: pl.id,
                        location: li,
                        blueprint: pl.transput.blueprint,
                        product: pl.transput.product,
                        kind: pl.kind,
                        export_kind: pl.export_kind,
                        export_pipe,
                        export_rate,
                        export_dst,
                        export_book,
                        materials,
                        installation_cost,
                        portion: dbt.portion(),
                        runs: dbt.runs(),
                        runs_per_sequence: dbt.runs_per_sequence(),
                        num_sequences: dbt.num_sequences(),
                        parallel: pl.parallel,
                        decryptor: match pl.decryptor {
                            Some(d) => Some(Item::new(d)),
                            None => None,
                        },
                        rank: 0,
                    },
                );
                loc_lines[li].push(line_idx);
                k = k + 1;
            }
        }
        li = li + 1;
    }

    // ranks over the acyclic sub-line graph: relax until stable; a graph
    // that still changes after as many rounds as there are lines has a
    // cycle (the final well-formedness check rejects any miss)
    let total: usize = lines.len();
    if total == usize::MAX {
        return Err(Error::ConfigInvalid);
    }
    let mut round: usize = 0;
    let mut changed: bool = true;
    while round <= total && changed
        invariant
            total == lines@.len(),
            total < usize::MAX,
            round <= total + 1,
        decreases total + 1 - round,
    {
        changed = false;
        let mut l: usize = 0;
        while l < total
            invariant
                0 <= l <= total,
                total == lines@.len(),
            decreases total - l,
        {
            let mut m: usize = 0;
            let num_mats = lines[l].materials.len();
            while m < num_mats
                invariant
                    0 <= m <= num_mats,
                    0 <= l < total,
                    total == lines@.len(),
                    num_mats == lines@[l as int].materials@.len(),
                decreases num_mats - m,
            {
                match lines[l].materials[m].source_line {
                    Some(sub) => {
                        if sub < total {
                            let sub_rank = lines[sub].rank;
                            if lines[l].rank <= sub_rank {
                                let bumped = crate::vol_add(sub_rank, 1);
                                lines[l].rank = bumped;
                                changed = true;
                            }
                        }
                    },
                    None => {},
                }
                m = m + 1;
            }
            l = l + 1;
        }
        round = round + 1;
    }
    if changed {
        return Err(Error::ConfigInvalid);
    }

    // per-location asset targets
    let mut assets_target: Vec<Vec<(Item, u64)>> = Vec::new();
    let mut i: usize = 0;
    while i < n
        invariant
            assets_target@.len() == i,
            0 <= i <= n,
            forall|j: int| 0 <= j < i ==> (#[trigger] assets_target@[j])@.len() == 0,
        decreases n - i,
    {
        assets_target.push(Vec::new());
        i = i + 1;
    }
    proof {
        assert forall|loc: int, it: Item| 0 <= loc < n implies #[trigger] lookup_qty(
            assets_target@[loc]@,
            it,
        ) == cap_u64(target_upto(lines@, routes@, pipes@, 0, loc, it)) by {
            assert(lookup_qty(assets_target@[loc]@, it) == 0);
        }
    }
    let mut l: usize = 0;
    while l < lines.len()
        invariant
            0 <= l <= lines@.len(),
            n == cfg.locations@.len(),
            assets_target@.len() == n,
            forall|q: int| 0 <= q < pipes@.len() ==> pipe_routes_ok(
                routes@,
                (#[trigger] pipes@[q]).routes@,
            ),
            forall|q: int| 0 <= q < routes@.len() ==> {
                let rt = #[trigger] routes@[q];
                rt.src_location < n && rt.dst_location < n && rt.rate.m3_rate <= MONEY_CAP
            },
            forall|loc: int, it: Item| 0 <= loc < n ==> #[trigger] lookup_qty(
                assets_target@[loc]@,
                it,
            ) == cap_u64(target_upto(lines@, routes@, pipes@, l as int, loc, it)),
        decreases lines@.len() - l,
    {
        let parallel = lines[l].parallel;
        let is_product = match lines[l].export_kind {
            ProductionLineExportKind::Product => true,
            ProductionLineExportKind::Intermediate => false,
        };
        if is_product {
            if lines[l].export_pipe >= pipes.len() {
                return Err(Error::ConfigInvalid);
            }
            let num_buildable = crate::qty_mul(lines[l].portion, parallel);
            let stops = pipes[lines[l].export_pipe].locations(&routes);
            let product = lines[l].product;
            let mut s: usize = 0;
            while s < stops.len()
                invariant
                    0 <= s <= stops@.len(),
                    0 <= l < lines@.len(),
                    n == cfg.locations@.len(),
                    assets_target@.len() == n,
                    lines@[l as int].export_kind == ProductionLineExportKind::Product,
                    product == lines@[l as int].product,
                    num_buildable == crate::sat_mul64(
                        lines@[l as int].portion as int,
                        lines@[l as int].parallel as int,
                    ),
                    forall|w: int| 0 <= w < stops@.len() ==> (#[trigger] stops@[w]) < n,
                    forall|loc: int, it: Item| 0 <= loc < n ==> #[trigger] lookup_qty(
                        assets_target@[loc]@,
                        it,
                    ) == cap_u64(
                        target_upto(lines@, routes@, pipes@, l as int, loc, it) + if it
                            == lines@[l as int].product {
                            num_buildable * count_upto(stops@, s as int, loc)
                        } else {
                            0int
                        },
                    ),
                decreases stops@.len() - s,
            {
                let stop = stops[s];
                let ghost pre_t = assets_target@;
                crate::ledger::add_qty(&mut assets_target[stop], product, num_buildable);
                proof {
                    assert forall|loc: int, it: Item| 0 <= loc < n implies #[trigger] lookup_qty(
                        assets_target@[loc]@,
                        it,
                    ) == cap_u64(
                        target_upto(lines@, routes@, pipes@, l as int, loc, it) + if it
                            == lines@[l as int].product {
                            num_buildable as int * count_upto(stops@, s as int + 1, loc)
                        } else {
                            0int
                        },
                    ) by {
                        lemma_target_upto_nonneg(lines@, routes@, pipes@, l as int, loc, it);
                        lemma_count_upto_nonneg(stops@, s as int, loc);
                        lemma_mul_nonneg(
                            num_buildable as int,
                            count_upto(stops@, s as int, loc),
                        );
                        lemma_mul_succ(num_buildable as int, count_upto(stops@, s as int, loc));
                        if loc == stops@[s as int] {
                            if it == lines@[l as int].product {
                                lemma_cap_u64_step(
                                    target_upto(lines@, routes@, pipes@, l as int, loc, it)
                                        + num_buildable as int * count_upto(
                                        stops@,
                                        s as int,
                                        loc,
                                    ),
                                    num_buildable as int,
                                );
                            }
                        } else {
                            assert(assets_target@[loc] == pre_t[loc]);
                        }
                    }
                }
                s = s + 1;
            }
            proof {
                // the walked stop list counts exactly as the pipe's stops
                let hops = pipes@[lines@[l as int].export_pipe as int].routes@;
                assert forall|loc: int, it: Item| 0 <= loc < n implies #[trigger] lookup_qty(
                    assets_target@[loc]@,
                    it,
                ) == cap_u64(cell_base(lines@, routes@, pipes@, l as int, 0, loc, it)) by {
                    lemma_stops_count_bridge(routes@, hops, stops@, hops.len() as int, loc);
                    assert(count_upto(stops@, stops@.len() as int, loc) == hop_src_count_upto(
                        routes@,
                        hops,
                        hops.len() as int,
                        loc,
                    ) + if stops@[stops@.len() - 1] == loc {
                        1int
                    } else {
                        0int
                    });
                }
            }
        } else {
            proof {
                assert forall|loc: int, it: Item| 0 <= loc < n implies #[trigger] lookup_qty(
                    assets_target@[loc]@,
                    it,
                ) == cap_u64(cell_base(lines@, routes@, pipes@, l as int, 0, loc, it)) by {}
            }
        }
        let num_mats = lines[l].materials.len();
        let mut m: usize = 0;
        while m < num_mats
            invariant
                0 <= m <= num_mats,
                0 <= l < lines@.len(),
                num_mats == lines@[l as int].materials@.len(),
                n == cfg.locations@.len(),
                assets_target@.len() == n,
                parallel == lines@[l as int].parallel,
                forall|q: int| 0 <= q < pipes@.len() ==> pipe_routes_ok(
                    routes@,
                    (#[trigger] pipes@[q]).routes@,
                ),
                forall|q: int| 0 <= q < routes@.len() ==> {
                    let rt = #[trigger] routes@[q];
                    rt.src_location < n && rt.dst_location < n && rt.rate.m3_rate <= MONEY_CAP
                },
                forall|loc: int, it: Item| 0 <= loc < n ==> #[trigger] lookup_qty(
                    assets_target@[loc]@,
                    it,
                ) == cap_u64(cell_base(lines@, routes@, pipes@, l as int, m as int, loc, it)),
            decreases num_mats - m,
        {
            let item = lines[l].materials[m].item;
            let demand = crate::qty_mul(lines[l].materials[m].quantity, parallel);
            match lines[l].materials[m].source_line {
                Some(sub) => {
                    if sub >= lines.len() {
                        return Err(Error::ConfigInvalid);
                    }
                    if lines[sub].export_pipe >= pipes.len() {
                        return Err(Error::ConfigInvalid);
                    }
                    let stops = pipes[lines[sub].export_pipe].locations(&routes);
                    let mut s: usize = 0;
                    while s < stops.len()
                        invariant
                            0 <= s <= stops@.len(),
                            0 <= l < lines@.len(),
                            0 <= m < lines@[l as int].materials@.len(),
                            n == cfg.locations@.len(),
                            assets_target@.len() == n,
                            item == lines@[l as int].materials@[m as int].item,
                            demand == crate::sat_mul64(
                                lines@[l as int].materials@[m as int].quantity as int,
                                lines@[l as int].parallel as int,
                            ),
                            forall|w: int| 0 <= w < stops@.len() ==> (#[trigger] stops@[w])
                                < n,
                            forall|loc: int, it: Item| 0 <= loc < n ==> #[trigger] lookup_qty(
                                assets_target@[loc]@,
                                it,
                            ) == cap_u64(
                                cell_base(lines@, routes@, pipes@, l as int, m as int, loc, it)
                                    + if it == lines@[l as int].materials@[m as int].item {
                                    demand * count_upto(stops@, s as int, loc)
                                } else {
                                    0int
                                },
                            ),
                        decreases stops@.len() - s,
                    {
                        let stop = stops[s];
                        let ghost pre_t = assets_target@;
                        crate::ledger::add_qty(&mut assets_target[stop], item, demand);
                        proof {
                            assert forall|loc: int, it: Item| 0 <= loc < n implies #[trigger] lookup_qty(
                                assets_target@[loc]@,
                                it,
                            ) == cap_u64(
                                cell_base(lines@, routes@, pipes@, l as int, m as int, loc, it)
                                    + if it == lines@[l as int].materials@[m as int].item {
                                    demand as int * count_upto(stops@, s as int + 1, loc)
                                } else {
                                    0int
                                },
                            ) by {
                                lemma_cell_base_nonneg(
                                    lines@,
                                    routes@,
                                    pipes@,
                                    l as int,
                                    m as int,
                                    loc,
                                    it,
                                );
                                lemma_count_upto_nonneg(stops@, s as int, loc);
                                lemma_mul_nonneg(
                                    demand as int,
                                    count_upto(stops@, s as int, loc),
                                );
                                lemma_mul_succ(demand as int, count_upto(stops@, s as int, loc));
                                if loc == stops@[s as int] {
                                    if it == lines@[l as int].materials@[m as int].item {
                                        lemma_cap_u64_step(
                                            cell_base(
                                                lines@,
                                                routes@,
                                                pipes@,
                                                l as int,
                                                m as int,
                                                loc,
                                                it,
                                            ) + demand as int * count_upto(
                                                stops@,
                                                s as int,
                                                loc,
                                            ),
                                            demand as int,
                                        );
                                    }
                                } else {
                                    assert(assets_target@[loc] == pre_t[loc]);
                                }
                            }
                        }
                        s = s + 1;
                    }
                    proof {
                        let hops = pipes@[lines@[sub as int].export_pipe as int].routes@;
                        assert forall|loc: int, it: Item| 0 <= loc < n implies #[trigger] lookup_qty(
                            assets_target@[loc]@,
                            it,
                        ) == cap_u64(
                            cell_base(
                                lines@,
                                routes@,
                                pipes@,
                                l as int,
                                m as int + 1,
                                loc,
                                it,
                            ),
                        ) by {
                            lemma_stops_count_bridge(
                                routes@,
                                hops,
                                stops@,
                                hops.len() as int,
                                loc,
                            );
                            assert(count_upto(stops@, stops@.len() as int, loc)
                                == hop_src_count_upto(routes@, hops, hops.len() as int, loc)
                                + if stops@[stops@.len() - 1] == loc {
                                1int
                            } else {
                                0int
                            });
                        }
                    }
                },
                None => {
                    // every distinct location along the market pipes, the
                    // market itself excluded
                    let mut seen: Vec<usize> = Vec::new();
                    let num_srcs = lines[l].materials[m].market_srcs.len();
                    let mut q: usize = 0;
                    while q < num_srcs
                        invariant
                            0 <= q <= num_srcs,
                            0 <= l < lines@.len(),
                            0 <= m < lines@[l as int].materials@.len(),
                            num_srcs == lines@[l as int].materials@[
                                m as int].market_srcs@.len(),
                            n == cfg.locations@.len(),
                            assets_target@.len() == n,
                            item == lines@[l as int].materials@[m as int].item,
                            demand == crate::sat_mul64(
                                lines@[l as int].materials@[m as int].quantity as int,
                                lines@[l as int].parallel as int,
                            ),
                            forall|w: int| 0 <= w < seen@.len() ==> (#[trigger] seen@[w]) < n,
                            forall|w: int| 0 <= w < pipes@.len() ==> pipe_routes_ok(
                                routes@,
                                (#[trigger] pipes@[w]).routes@,
                            ),
                            forall|w: int| 0 <= w < routes@.len() ==> {
                                let rt = #[trigger] routes@[w];
                                rt.src_location < n && rt.dst_location < n && rt.rate.m3_rate
                                    <= MONEY_CAP
                            },
                            forall|j: int| 0 <= j < seen@.len() ==> material_reaches(
                                routes@,
                                pipes@,
                                lines@[l as int].materials@[m as int].market_srcs@,
                                (#[trigger] seen@[j]) as int,
                            ),
                            seen_complete(
                                routes@,
                                pipes@,
                                lines@[l as int].materials@[m as int].market_srcs@,
                                seen@,
                                q as int,
                                0,
                            ),
                            forall|loc: int, it: Item| 0 <= loc < n ==> #[trigger] lookup_qty(
                                assets_target@[loc]@,
                                it,
                            ) == cap_u64(
                                cell_base(lines@, routes@, pipes@, l as int, m as int, loc, it)
                                    + if it == lines@[l as int].materials@[m as int].item
                                    && in_seq(seen@, loc as usize) {
                                    demand as int
                                } else {
                                    0int
                                },
                            ),
                        decreases num_srcs - q,
                    {
                        let pidx = lines[l].materials[m].market_srcs[q].pipe;
                        if pidx >= pipes.len() {
                            return Err(Error::ConfigInvalid);
                        }
                        let dsts = pipes[pidx].dst_locations(&routes);
                        let mut s: usize = 0;
                        while s < dsts.len()
                            invariant
                                0 <= s <= dsts@.len(),
                                0 <= l < lines@.len(),
                                0 <= m < lines@[l as int].materials@.len(),
                                0 <= q < lines@[l as int].materials@[
                                    m as int].market_srcs@.len(),
                                n == cfg.locations@.len(),
                                assets_target@.len() == n,
                                item == lines@[l as int].materials@[m as int].item,
                                demand == crate::sat_mul64(
                                    lines@[l as int].materials@[m as int].quantity as int,
                                    lines@[l as int].parallel as int,
                                ),
                                pidx == lines@[l as int].materials@[m as int].market_srcs@[
                                    q as int].pipe,
                                pidx < pipes@.len(),
                                dsts@.len() == pipes@[pidx as int].routes@.len(),
                                forall|w: int| 0 <= w < dsts@.len() ==> #[trigger] dsts@[w]
                                    == routes@[pipes@[pidx as int].routes@[
                                    w] as int].dst_location,
                                forall|w: int| 0 <= w < dsts@.len() ==> (#[trigger] dsts@[w])
                                    < n,
                                forall|w: int| 0 <= w < seen@.len() ==> (#[trigger] seen@[w])
                                    < n,
                                forall|j: int| 0 <= j < seen@.len() ==> material_reaches(
                                    routes@,
                                    pipes@,
                                    lines@[l as int].materials@[m as int].market_srcs@,
                                    (#[trigger] seen@[j]) as int,
                                ),
                                seen_complete(
                                    routes@,
                                    pipes@,
                                    lines@[l as int].materials@[m as int].market_srcs@,
                                    seen@,
                                    q as int,
                                    s as int,
                                ),
                                forall|loc: int, it: Item| 0 <= loc < n ==> #[trigger] lookup_qty(
                                    assets_target@[loc]@,
                                    it,
                                ) == cap_u64(
                                    cell_base(
                                        lines@,
                                        routes@,
                                        pipes@,
                                        l as int,
                                        m as int,
                                        loc,
                                        it,
                                    ) + if it == lines@[l as int].materials@[m as int].item
                                        && in_seq(seen@, loc as usize) {
                                        demand as int
                                    } else {
                                        0int
                                    },
                                ),
                            decreases dsts@.len() - s,
                        {
                            let stop = dsts[s];
                            let was_seen = contains_usize(&seen, stop);
                            if !was_seen {
                                let ghost seen_pre = seen@;
                                let ghost pre_t = assets_target@;
                                seen.push(stop);
                                crate::ledger::add_qty(&mut assets_target[stop], item, demand);
                                proof {
                                    assert forall|y: usize| in_seq(seen@, y) == (in_seq(
                                        seen_pre,
                                        y,
                                    ) || y == stop) by {
                                        lemma_in_seq_push(seen_pre, stop, y);
                                    }
                                    assert forall|loc: int, it: Item| 0 <= loc < n implies #[trigger]
                                    lookup_qty(assets_target@[loc]@, it)
                                        == cap_u64(
                                        cell_base(
                                            lines@,
                                            routes@,
                                            pipes@,
                                            l as int,
                                            m as int,
                                            loc,
                                            it,
                                        ) + if it == lines@[l as int].materials@[
                                            m as int].item && in_seq(seen@, loc as usize) {
                                            demand as int
                                        } else {
                                            0int
                                        },
                                    ) by {
                                        lemma_cell_base_nonneg(
                                            lines@,
                                            routes@,
                                            pipes@,
                                            l as int,
                                            m as int,
                                            loc,
                                            it,
                                        );
                                        if loc == stop as int {
                                            if it == lines@[l as int].materials@[
                                                m as int].item {
                                                assert(!in_seq(seen_pre, loc as usize));
                                                lemma_cap_u64_step(
                                                    cell_base(
                                                        lines@,
                                                        routes@,
                                                        pipes@,
                                                        l as int,
                                                        m as int,
                                                        loc,
                                                        it,
                                                    ),
                                                    demand as int,
                                                );
                                            }
                                        } else {
                                            assert(assets_target@[loc] == pre_t[loc]);
                                            assert(in_seq(seen@, loc as usize) == in_seq(
                                                seen_pre,
                                                loc as usize,
                                            ));
                                        }
                                    }
                                    // the new stop is this hop's destination
                                    let srcs = lines@[l as int].materials@[
                                        m as int].market_srcs@;
                                    assert(src_route_dst(routes@, pipes@, srcs, q as int, s as int)
                                        == stop as int);
                                    assert(material_reaches(
                                        routes@,
                                        pipes@,
                                        srcs,
                                        stop as int,
                                    )) by {
                                        assert((q as int) < srcs.len());
                                        assert((s as int) < pipes@[srcs[
                                            q as int].pipe as int].routes@.len());
                                        assert(routes@[pipes@[srcs[
                                            q as int].pipe as int].routes@[
                                            s as int] as int].dst_location == stop as int);
                                    }
                                    assert forall|j: int| 0 <= j < seen@.len() implies
                                    material_reaches(
                                        routes@,
                                        pipes@,
                                        srcs,
                                        (#[trigger] seen@[j]) as int,
                                    ) by {
                                        if j < seen_pre.len() {
                                            assert(seen@[j] == seen_pre[j]);
                                        } else {
                                            assert(seen@[j] == stop);
                                        }
                                    }
                                    assert forall|k: int, h: int|
                                        0 <= k < srcs.len() && 0 <= h < pipes@[srcs[
                                            k].pipe as int].routes@.len() && (k < q as int || (
                                        k == q as int && h < s as int + 1)) implies in_seq(
                                        seen@,
                                        #[trigger] src_route_dst(
                                            routes@,
                                            pipes@,
                                            srcs,
                                            k,
                                            h,
                                        ) as usize,
                                    ) by {
                                        if k < q as int || (k == q as int && h < s as int) {
                                            assert(in_seq(
                                                seen_pre,
                                                src_route_dst(
                                                    routes@,
                                                    pipes@,
                                                    srcs,
                                                    k,
                                                    h,
                                                ) as usize,
                                            ));
                                        } else {
                                            assert(src_route_dst(routes@, pipes@, srcs, k, h)
                                                == stop as int);
                                            assert(in_seq(seen@, stop));
                                        }
                                    }
                                }
                            } else {
                                proof {
                                    assert(in_seq(seen@, stop));
                                    let srcs = lines@[l as int].materials@[
                                        m as int].market_srcs@;
                                    assert(src_route_dst(routes@, pipes@, srcs, q as int, s as int)
                                        == stop as int);
                                    assert forall|k: int, h: int|
                                        0 <= k < srcs.len() && 0 <= h < pipes@[srcs[
                                            k].pipe as int].routes@.len() && (k < q as int || (
                                        k == q as int && h < s as int + 1)) implies in_seq(
                                        seen@,
                                        #[trigger] src_route_dst(
                                            routes@,
                                            pipes@,
                                            srcs,
                                            k,
                                            h,
                                        ) as usize,
                                    ) by {
                                        if k < q as int || (k == q as int && h < s as int) {
                                        } else {
                                            assert(src_route_dst(routes@, pipes@, srcs, k, h)
                                                == stop as int);
                                        }
                                    }
                                }
                            }
                            s = s + 1;
                        }
                        proof {
                            // the whole of source q is now processed
                            let srcs = lines@[l as int].materials@[m as int].market_srcs@;
                            assert forall|k: int, h: int|
                                0 <= k < srcs.len() && 0 <= h < pipes@[srcs[
                                    k].pipe as int].routes@.len() && (k < q as int + 1 || (k
                                    == q as int + 1 && h < 0)) implies in_seq(
                                seen@,
                                #[trigger] src_route_dst(routes@, pipes@, srcs, k, h) as usize,
                            ) by {
                                if k == q as int {
                                    assert(h < dsts@.len() as int);
                                }
                            }
                            assert(seen_complete(
                                routes@,
                                pipes@,
                                srcs,
                                seen@,
                                q as int + 1,
                                0,
                            ));
                        }
                        q = q + 1;
                    }
                    proof {
                        // every reachable destination is recorded, and only
                        // those: the dedup list now stands for reachability
                        let srcs = lines@[l as int].materials@[m as int].market_srcs@;
                        assert forall|loc: int, it: Item| 0 <= loc < n implies #[trigger] lookup_qty(
                            assets_target@[loc]@,
                            it,
                        ) == cap_u64(
                            cell_base(
                                lines@,
                                routes@,
                                pipes@,
                                l as int,
                                m as int + 1,
                                loc,
                                it,
                            ),
                        ) by {
                            if material_reaches(routes@, pipes@, srcs, loc) {
                                let (k, h) = choose|k: int, h: int|
                                    0 <= k < srcs.len() && 0 <= h < pipes@[srcs[
                                        k].pipe as int].routes@.len() && routes@[pipes@[srcs[
                                        k].pipe as int].routes@[h] as int].dst_location == loc;
                                assert(k < num_srcs as int);
                                assert(in_seq(
                                    seen@,
                                    src_route_dst(routes@, pipes@, srcs, k, h) as usize,
                                ));
                                assert(src_route_dst(routes@, pipes@, srcs, k, h) == loc);
                                assert(in_seq(seen@, loc as usize));
                            }
                            if in_seq(seen@, loc as usize) {
                                let j = choose|j: int|
                                    0 <= j < seen@.len() && seen@[j] == loc as usize;
                                assert(material_reaches(
                                    routes@,
                                    pipes@,
                                    srcs,
                                    (seen@[j]) as int,
                                ));
                                assert(material_reaches(routes@, pipes@, srcs, loc));
                            }
                        }
                    }
                },
            }
            m = m + 1;
        }
        proof {
            assert forall|loc: int, it: Item| 0 <= loc < n implies #[trigger] lookup_qty(
                assets_target@[loc]@,
                it,
            ) == cap_u64(target_upto(lines@, routes@, pipes@, l as int + 1, loc, it)) by {}
        }
        l = l + 1;
    }

    // assemble the arenas
    let mut locations: Vec<Location> = Vec::new();
    let mut li: usize = 0;
    while li < n
        invariant
            0 <= li <= n,
            n == cfg.locations@.len(),
            locations@.len() == li,
            loc_books@.len() == n,
            loc_routes@.len() == n,
            loc_imports@.len() == n,
            loc_exports@.len() == n,
            loc_lines@.len() == n,
            forall|j: int| 0 <= j < li ==> {
                let built = #[trigger] locations@[j];
                &&& built.id == cfg.locations@[j].id
                &&& built.name@ == cfg.locations@[j].name@
                &&& built.system_id == cfg.locations@[j].system_id
                &&& built.market == cfg.locations@[j].market
            },
        decreases n - li,
    {
        let location_assets: Vec<(Item, i64)> = match find_assets(assets, cfg.locations[li].id) {
            Some(a) => copy_signed_items(&assets[a].1),
            None => Vec::new(),
        };
        let mut books_entry: Vec<(u32, usize)> = Vec::new();
        std::mem::swap(&mut books_entry, &mut loc_books[li]);
        let mut routes_entry: Vec<usize> = Vec::new();
        std::mem::swap(&mut routes_entry, &mut loc_routes[li]);
        let mut imports_entry: Vec<usize> = Vec::new();
        std::mem::swap(&mut imports_entry, &mut loc_imports[li]);
        let mut exports_entry: Vec<usize> = Vec::new();
        std::mem::swap(&mut exports_entry, &mut loc_exports[li]);
        let mut lines_entry: Vec<usize> = Vec::new();
        std::mem::swap(&mut lines_entry, &mut loc_lines[li]);
        locations.push(
            Location {
                id: cfg.locations[li].id,
                name: clone_string(&cfg.locations[li].name),
                system_id: cfg.locations[li].system_id,
                market: cfg.locations[li].market,
                books: books_entry,
                assets: location_assets,
                import_pipes: imports_entry,
                export_pipes: exports_entry,
                lines: lines_entry,
                routes: routes_entry,
            },
        );
        li = li + 1;
    }

    let plan_cfg = PlanCfg {
        locations,
        routes,
        pipes,
        lines,
        volumes: copy_items(volumes),
        assets_target,
        num_books,
        min_profit: cfg.min_profit,
        min_margin: cfg.min_margin,
    };
    if !check_cfg(&plan_cfg) {
        return Err(Error::ConfigInvalid);
    }

    // the moving state starts quiescent
    let mut deliveries: Vec<Vec<(Item, u64)>> = Vec::new();
    while deliveries.len() < plan_cfg.pipes.len()
        invariant
            deliveries@.len() <= plan_cfg.pipes@.len(),
            forall|p: int| 0 <= p < deliveries@.len() ==> (#[trigger] deliveries@[p])@.len()
                == 0,
        decreases plan_cfg.pipes@.len() - deliveries@.len(),
    {
        deliveries.push(Vec::new());
    }
    let mut builds: Vec<u64> = Vec::new();
    while builds.len() < plan_cfg.lines.len()
        invariant
            builds@.len() <= plan_cfg.lines@.len(),
            forall|p: int| 0 <= p < builds@.len() ==> (#[trigger] builds@[p]) == 0,
        decreases plan_cfg.lines@.len() - builds@.len(),
    {
        builds.push(0);
    }
    let mut consumed: Vec<Vec<(Item, u64)>> = Vec::new();
    while consumed.len() < plan_cfg.locations.len()
        invariant
            consumed@.len() <= plan_cfg.locations@.len(),
        decreases plan_cfg.locations@.len() - consumed@.len(),
    {
        consumed.push(Vec::new());
    }
    let state = PlanState {
        books,
        deliveries,
        builds,
        slots: crate::slots::IndustrySlots {
            manufacturing: cfg.slots.manufacturing,
            reaction: cfg.slots.reaction,
            science: cfg.slots.science,
        },
        consumed,
    };
    Ok((plan_cfg, state))
}

fn clone_string(s: &String) -> (r: String)
    ensures
        r@ == s@,
{
    s.clone()
}

fn copy_orders(v: &Vec<MarketOrder>) -> (r: Vec<MarketOrder>)
    ensures
        r@ == v@,
{
    let mut r: Vec<MarketOrder> = Vec::new();
    let mut i: usize = 0;
    while i < v.len()
        invariant
            0 <= i <= v@.len(),
            r@ == v@.take(i as int),
        decreases v@.len() - i,
    {
        r.push(v[i]);
        proof {
            assert(v@.take(i as int).push(v@[i as int]) =~= v@.take(i as int + 1));
        }
        i = i + 1;
    }
    proof {
        assert(v@.take(v@.len() as int) =~= v@);
    }
    r
}

fn find_u32_in_pairs(v: &Vec<(u32, u32)>, key: u32) -> (r: Option<u32>) {
    let mut i: usize = 0;
    while i < v.len()
        decreases v@.len() - i,
    {
        if v[i].0 == key {
            return Some(v[i].1);
        }
        i = i + 1;
    }
    None
}

/// Like `get_book`, but promising only that a found index is in range of
/// the recorded table.
fn get_book_checked(books: &Vec<(u32, usize)>, type_id: u32) -> (r: Option<usize>)
    ensures
        r matches Some(b) ==> exists|j: int|
            0 <= j < books@.len() && (#[trigger] books@[j]) == (type_id, b),
{
    let mut i: usize = 0;
    while i < books.len()
        decreases books@.len() - i,
    {
        if books[i].0 == type_id {
            return Some(books[i].1);
        }
        i = i + 1;
    }
    None
}

/// Checks the whole static plan for well-formedness; accepting here is
/// what establishes `PlanCfg::wf`.
fn check_cfg(cfg: &PlanCfg) -> (r: bool)
    ensures
        r ==> cfg.wf(),
{
    // routes
    let mut i: usize = 0;
    while i < cfg.routes.len()
        invariant
            0 <= i <= cfg.routes@.len(),
            forall|k: int| 0 <= k < i ==> {
                let rt = #[trigger] cfg.routes@[k];
                rt.src_location < cfg.locations@.len() && rt.dst_location
                    < cfg.locations@.len() && rt.rate.m3_rate <= MONEY_CAP
            },
        decreases cfg.routes@.len() - i,
    {
        let rt = &cfg.routes[i];
        if rt.src_location >= cfg.locations.len() || rt.dst_location >= cfg.locations.len()
            || rt.rate.m3_rate > MONEY_CAP {
            return false;
        }
        i = i + 1;
    }

    // pipes
    let mut i: usize = 0;
    while i < cfg.pipes.len()
        invariant
            0 <= i <= cfg.pipes@.len(),
            forall|k: int| 0 <= k < i ==> pipe_routes_ok(
                cfg.routes@,
                (#[trigger] cfg.pipes@[k]).routes@,
            ),
        decreases cfg.pipes@.len() - i,
    {
        let pipe = &cfg.pipes[i];
        if pipe.routes.len() == 0 {
            return false;
        }
        let mut k: usize = 0;
        while k < pipe.routes.len()
            invariant
                0 <= k <= pipe.routes@.len(),
                pipe == &cfg.pipes@[i as int],
                forall|m: int| 0 <= m < k ==> (#[trigger] pipe.routes@[m]) < cfg.routes@.len(),
            decreases pipe.routes@.len() - k,
        {
            if pipe.routes[k] >= cfg.routes.len() {
                return false;
            }
            k = k + 1;
        }
        i = i + 1;
    }

    // locations
    let mut i: usize = 0;
    while i < cfg.locations.len()
        invariant
            0 <= i <= cfg.locations@.len(),
            forall|k: int| 0 <= k < i ==> cfg.location_wf(#[trigger] cfg.locations@[k]),
            forall|m: int| 0 <= m < cfg.pipes@.len() ==> pipe_routes_ok(
                cfg.routes@,
                (#[trigger] cfg.pipes@[m]).routes@,
            ),
            forall|i2: int, j: int|
                0 <= i2 < i && 0 <= j < cfg.locations@[i2].export_pipes@.len()
                    ==> cfg.spec_pipe_src(#[trigger] cfg.locations@[i2].export_pipes@[j])
                    == i2,
            forall|i2: int, j: int|
                0 <= i2 < i && 0 <= j < cfg.locations@[i2].import_pipes@.len()
                    ==> cfg.spec_pipe_dst(#[trigger] cfg.locations@[i2].import_pipes@[j])
                    == i2,
        decreases cfg.locations@.len() - i,
    {
        let loc = &cfg.locations[i];
        let mut k: usize = 0;
        while k < loc.books.len()
            invariant
                0 <= k <= loc.books@.len(),
                loc == &cfg.locations@[i as int],
                forall|m: int| 0 <= m < k ==> (#[trigger] loc.books@[m]).1 < cfg.num_books,
            decreases loc.books@.len() - k,
        {
            if loc.books[k].1 >= cfg.num_books {
                return false;
            }
            k = k + 1;
        }
        let mut k: usize = 0;
        while k < loc.import_pipes.len()
            invariant
                0 <= i < cfg.locations@.len(),
                0 <= k <= loc.import_pipes@.len(),
                loc == &cfg.locations@[i as int],
                forall|m: int| 0 <= m < cfg.pipes@.len() ==> pipe_routes_ok(
                    cfg.routes@,
                    (#[trigger] cfg.pipes@[m]).routes@,
                ),
                forall|m: int| 0 <= m < k ==> (#[trigger] loc.import_pipes@[m])
                    < cfg.pipes@.len(),
                forall|m: int| 0 <= m < k ==> cfg.spec_pipe_dst(
                    #[trigger] loc.import_pipes@[m],
                ) == i,
            decreases loc.import_pipes@.len() - k,
        {
            if loc.import_pipes[k] >= cfg.pipes.len() {
                return false;
            }
            if cfg.pipes[loc.import_pipes[k]].dst(&cfg.routes) != i {
                return false;
            }
            k = k + 1;
        }
        let mut k: usize = 0;
        while k < loc.export_pipes.len()
            invariant
                0 <= i < cfg.locations@.len(),
                0 <= k <= loc.export_pipes@.len(),
                loc == &cfg.locations@[i as int],
                forall|m: int| 0 <= m < cfg.pipes@.len() ==> pipe_routes_ok(
                    cfg.routes@,
                    (#[trigger] cfg.pipes@[m]).routes@,
                ),
                forall|m: int| 0 <= m < k ==> (#[trigger] loc.export_pipes@[m])
                    < cfg.pipes@.len(),
                forall|m: int| 0 <= m < k ==> cfg.spec_pipe_src(
                    #[trigger] loc.export_pipes@[m],
                ) == i,
            decreases loc.export_pipes@.len() - k,
        {
            if loc.export_pipes[k] >= cfg.pipes.len() {
                return false;
            }
            if cfg.pipes[loc.export_pipes[k]].src(&cfg.routes) != i {
                return false;
            }
            k = k + 1;
        }
        let mut k: usize = 0;
        while k < loc.lines.len()
            invariant
                0 <= k <= loc.lines@.len(),
                loc == &cfg.locations@[i as int],
                forall|m: int| 0 <= m < k ==> (#[trigger] loc.lines@[m]) < cfg.lines@.len(),
            decreases loc.lines@.len() - k,
        {
            if loc.lines[k] >= cfg.lines.len() {
                return false;
            }
            k = k + 1;
        }
        let mut k: usize = 0;
        while k < loc.routes.len()
            invariant
                0 <= k <= loc.routes@.len(),
                loc == &cfg.locations@[i as int],
                forall|m: int| 0 <= m < k ==> (#[trigger] loc.routes@[m]) < cfg.routes@.len(),
            decreases loc.routes@.len() - k,
        {
            if loc.routes[k] >= cfg.routes.len() {
                return false;
            }
            k = k + 1;
        }
        i = i + 1;
    }

    // lines
    let mut i: usize = 0;
    while i < cfg.lines.len()
        invariant
            0 <= i <= cfg.lines@.len(),
            forall|k: int| 0 <= k < i ==> cfg.line_wf(#[trigger] cfg.lines@[k]),
        decreases cfg.lines@.len() - i,
    {
        let line = &cfg.lines[i];
        if line.location >= cfg.locations.len() || line.export_pipe >= cfg.pipes.len()
            || line.export_dst >= cfg.locations.len() {
            return false;
        }
        match line.export_book {
            Some(b) => {
                if b >= cfg.num_books {
                    return false;
                }
            },
            None => {},
        }
        if line.export_rate.m3_rate > MONEY_CAP || line.installation_cost > MONEY_CAP {
            return false;
        }
        match line.export_kind {
            ProductionLineExportKind::Product => {
                if cfg.locations[line.export_dst].market.is_none() {
                    return false;
                }
            },
            ProductionLineExportKind::Intermediate => {
                if line.export_book.is_some() {
                    return false;
                }
            },
        }
        let mut k: usize = 0;
        while k < line.materials.len()
            invariant
                0 <= k <= line.materials@.len(),
                line == &cfg.lines@[i as int],
                forall|m: int| 0 <= m < k ==> cfg.material_wf(
                    #[trigger] line.materials@[m],
                    line.rank,
                ),
            decreases line.materials@.len() - k,
        {
            let mat = &line.materials[k];
            match mat.source_line {
                Some(sub) => {
                    if sub >= cfg.lines.len() {
                        return false;
                    }
                    if cfg.lines[sub].rank >= line.rank {
                        return false;
                    }
                    if cfg.lines[sub].product.type_id != mat.item.type_id {
                        return false;
                    }
                },
                None => {
                    if mat.market_srcs.len() == 0 {
                        return false;
                    }
                    let mut m: usize = 0;
                    while m < mat.market_srcs.len()
                        invariant
                            0 <= m <= mat.market_srcs@.len(),
                            mat == &cfg.lines@[i as int].materials@[k as int],
                            forall|q: int| 0 <= q < m ==> {
                                let src = #[trigger] mat.market_srcs@[q];
                                src.pipe < cfg.pipes@.len() && src.book < cfg.num_books
                                    && src.rate.m3_rate <= MONEY_CAP
                            },
                        decreases mat.market_srcs@.len() - m,
                    {
                        let src = mat.market_srcs[m];
                        if src.pipe >= cfg.pipes.len() || src.book >= cfg.num_books
                            || src.rate.m3_rate > MONEY_CAP {
                            return false;
                        }
                        m = m + 1;
                    }
                },
            }
            k = k + 1;
        }
        i = i + 1;
    }

    if cfg.assets_target.len() != cfg.locations.len() {
        return false;
    }
    true
}

} // verus!
