use vstd::prelude::*;

use crate::config::{DeliveryRate, LocationMarket, ManufacturingKind, ProductionLineExportKind};
use crate::item::Item;
use crate::ledger::{get_qty, get_signed, lookup_qty, lookup_signed};
use crate::logistics::{DeliveryPipe, DeliveryRoute};
use crate::market::TypeMarketOrders;
use crate::profit::Profit;
use crate::slots::{IndustrySlot, IndustrySlots};
use crate::{cap_iadd, cap_iqmul, clamp_i64, sat_add_usize, AVAIL_CAP, QTY_DENOM};

verus! {

/// One market a material can be bought on: the pipe that hauls it, the
/// order book at the pipe's source, and the pipe's precomputed rate.
#[derive(Debug, Clone, Copy, PartialEq, Eq, Structural)]
pub struct MarketSrc {
    pub pipe: usize,
    pub book: usize,
    pub rate: DeliveryRate,
}

/// One material of a line's horizon bill: provided either by another line
/// or by one of the listed markets.
#[derive(Debug, Clone)]
pub struct Material {
    pub item: Item,
    /// For the whole horizon (all sequences).
    pub quantity: u64,
    /// The providing line, for a sub-line-provided material.
    pub source_line: Option<usize>,
    /// The markets that list the item, for a market-provided material.
    pub market_srcs: Vec<MarketSrc>,
}

/// One production line of the plan, fully resolved onto the arenas.
#[derive(Debug, Clone)]
pub struct ProductionLine {
    pub id: u32,
    pub location: usize,
    pub blueprint: Item,
    pub product: Item,
    pub kind: ManufacturingKind,
    pub export_kind: ProductionLineExportKind,
    pub export_pipe: usize,
    pub export_rate: DeliveryRate,
    /// The export pipe's destination location.
    pub export_dst: usize,
    /// The order book for the product at the export destination, if the
    /// destination sells it.
    pub export_book: Option<usize>,
    pub materials: Vec<Material>,
    /// For all horizon runs, in money units.
    pub installation_cost: u128,
    /// Items produced over the whole horizon.
    pub portion: u64,
    /// Runs over the whole horizon.
    pub runs: u64,
    pub runs_per_sequence: u64,
    pub num_sequences: u64,
    pub parallel: u64,
    pub decryptor: Option<Item>,
    /// Strictly greater than the rank of every line this one draws from;
    /// bounds the recursion over the acyclic sub-line graph.
    pub rank: u64,
}

/// One location of the plan.
#[derive(Debug, Clone)]
pub struct Location {
    pub id: u64,
    pub name: String,
    pub system_id: u32,
    pub market: Option<LocationMarket>,
    /// Type id to order-book index, for this location's market.
    pub books: Vec<(u32, usize)>,
    pub assets: Vec<(Item, i64)>,
    pub import_pipes: Vec<usize>,
    pub export_pipes: Vec<usize>,
    /// Lines hosted here.
    pub lines: Vec<usize>,
    /// Routes departing here.
    pub routes: Vec<usize>,
}

/// Everything about a plan that never changes while it executes.
#[derive(Debug, Clone)]
pub struct PlanCfg {
    pub locations: Vec<Location>,
    pub routes: Vec<DeliveryRoute>,
    pub pipes: Vec<DeliveryPipe>,
    pub lines: Vec<ProductionLine>,
    /// Item volumes in thousandths of a cubic metre.
    pub volumes: Vec<(Item, u64)>,
    /// Per location: how much of each item the plan wants present.
    pub assets_target: Vec<Vec<(Item, u64)>>,
    pub num_books: usize,
    pub min_profit: i128,
    /// Parts per million on top of break-even.
    pub min_margin: u64,
}

/// Everything about a plan that moves while it executes.
#[derive(Debug, Clone)]
#[verifier::ext_equal]
pub struct PlanState {
    pub books: Vec<TypeMarketOrders>,
    /// Per pipe: pending deliveries.
    pub deliveries: Vec<Vec<(Item, u64)>>,
    /// Per line: committed jobs.
    pub builds: Vec<u64>,
    pub slots: IndustrySlots,
    /// Per location: items consumed by committed builds.
    pub consumed: Vec<Vec<(Item, u64)>>,
}

/// The first book index recorded for `type_id`.
pub open spec fn lookup_book(books: Seq<(u32, usize)>, type_id: u32) -> Option<usize>
    decreases books.len(),
{
    if books.len() == 0 {
        None
    } else if books[0].0 == type_id {
        Some(books[0].1)
    } else {
        lookup_book(books.skip(1), type_id)
    }
}

pub fn get_book(books: &Vec<(u32, usize)>, type_id: u32) -> (r: Option<usize>)
    ensures
        r == lookup_book(books@, type_id),
{
    let ghost s = books@;
    proof {
        assert(s.skip(0) =~= s);
    }
    let mut i: usize = 0;
    while i < books.len()
        invariant
            0 <= i <= s.len(),
            books@ == s,
            lookup_book(s.skip(i as int), type_id) == lookup_book(s, type_id),
        decreases s.len() - i,
    {
        proof {
            assert(s.skip(i as int)[0] == s[i as int]);
        }
        if books[i].0 == type_id {
            return Some(books[i].1);
        }
        proof {
            assert(s.skip(i as int).skip(1) =~= s.skip(i as int + 1));
        }
        i = i + 1;
    }
    proof {
        assert(s.skip(i as int).len() == 0);
    }
    None
}

/// A book index found in a location's table stays within the arena.
pub proof fn lemma_lookup_book_bound(books: Seq<(u32, usize)>, type_id: u32, bound: usize)
    requires
        forall|j: int| 0 <= j < books.len() ==> (#[trigger] books[j]).1 < bound,
        lookup_book(books, type_id) is Some,
    ensures
        lookup_book(books, type_id).unwrap() < bound,
    decreases books.len(),
{
    if books.len() == 0 {
    } else if books[0].0 == type_id {
    } else {
        assert forall|j: int| 0 <= j < books.skip(1).len() implies (#[trigger] books.skip(
            1,
        )[j]).1 < bound by {
            assert(books.skip(1)[j] == books[j + 1]);
        }
        lemma_lookup_book_bound(books.skip(1), type_id, bound);
    }
}

impl PlanCfg {
    /// Static well-formedness: every stored index points into its arena,
    /// market materials have at least one source, and every providing line
    /// has a strictly smaller rank and produces the material's type.
    pub open spec fn wf(self) -> bool {
        &&& forall|i: int| 0 <= i < self.routes@.len() ==> {
            let r = #[trigger] self.routes@[i];
            r.src_location < self.locations@.len() && r.dst_location < self.locations@.len()
                && r.rate.m3_rate <= crate::MONEY_CAP
        }
        &&& forall|i: int| 0 <= i < self.pipes@.len()
            ==> crate::logistics::pipe_routes_ok(self.routes@, (#[trigger] self.pipes@[i]).routes@)
        &&& forall|i: int| 0 <= i < self.locations@.len() ==> self.location_wf(
            #[trigger] self.locations@[i],
        )
        &&& forall|i: int| 0 <= i < self.lines@.len() ==> self.line_wf(#[trigger] self.lines@[i])
        &&& self.assets_target@.len() == self.locations@.len()
        &&& forall|i: int, j: int|
            0 <= i < self.locations@.len() && 0 <= j < self.locations@[i].export_pipes@.len()
                ==> self.spec_pipe_src(#[trigger] self.locations@[i].export_pipes@[j]) == i
        &&& forall|i: int, j: int|
            0 <= i < self.locations@.len() && 0 <= j < self.locations@[i].import_pipes@.len()
                ==> self.spec_pipe_dst(#[trigger] self.locations@[i].import_pipes@[j]) == i
    }

    /// Where a pipe starts: its first route's source.
    pub open spec fn spec_pipe_src(self, p: usize) -> int {
        self.routes@[self.pipes@[p as int].routes@[0] as int].src_location as int
    }

    /// Where a pipe ends: its last route's destination.
    pub open spec fn spec_pipe_dst(self, p: usize) -> int {
        let hops = self.pipes@[p as int].routes@;
        self.routes@[hops[hops.len() - 1] as int].dst_location as int
    }

    pub open spec fn location_wf(self, loc: Location) -> bool {
        &&& forall|j: int| 0 <= j < loc.books@.len() ==> (#[trigger] loc.books@[j]).1
            < self.num_books
        &&& forall|j: int| 0 <= j < loc.import_pipes@.len() ==> (#[trigger] loc.import_pipes@[j])
            < self.pipes@.len()
        &&& forall|j: int| 0 <= j < loc.export_pipes@.len() ==> (#[trigger] loc.export_pipes@[j])
            < self.pipes@.len()
        &&& forall|j: int| 0 <= j < loc.lines@.len() ==> (#[trigger] loc.lines@[j])
            < self.lines@.len()
        &&& forall|j: int| 0 <= j < loc.routes@.len() ==> (#[trigger] loc.routes@[j])
            < self.routes@.len()
    }

    pub open spec fn line_wf(self, line: ProductionLine) -> bool {
        &&& line.location < self.locations@.len()
        &&& line.export_pipe < self.pipes@.len()
        &&& line.export_dst < self.locations@.len()
        &&& (line.export_book matches Some(b) ==> b < self.num_books)
        &&& line.export_rate.m3_rate <= crate::MONEY_CAP
        &&& line.installation_cost <= crate::MONEY_CAP
        &&& (line.export_kind == ProductionLineExportKind::Product ==> self.locations@[
            line.export_dst as int].market is Some)
        &&& (line.export_kind == ProductionLineExportKind::Intermediate
            ==> line.export_book is None)
        &&& forall|j: int| 0 <= j < line.materials@.len() ==> self.material_wf(
            #[trigger] line.materials@[j],
            line.rank,
        )
    }

    pub open spec fn material_wf(self, mat: Material, rank: u64) -> bool {
        match mat.source_line {
            Some(l) => {
                &&& l < self.lines@.len()
                &&& self.lines@[l as int].rank < rank
                &&& self.lines@[l as int].product.type_id == mat.item.type_id
            },
            None => {
                &&& mat.market_srcs@.len() > 0
                &&& forall|k: int| 0 <= k < mat.market_srcs@.len() ==> {
                    let s = #[trigger] mat.market_srcs@[k];
                    s.pipe < self.pipes@.len() && s.book < self.num_books && s.rate.m3_rate
                        <= crate::MONEY_CAP
                }
            },
        }
    }
}

impl PlanState {
    /// The moving state matches the plan's arenas in shape.
    pub open spec fn wf(self, cfg: PlanCfg) -> bool {
        &&& self.books@.len() == cfg.num_books
        &&& self.deliveries@.len() == cfg.pipes@.len()
        &&& self.builds@.len() == cfg.lines@.len()
        &&& self.consumed@.len() == cfg.locations@.len()
        &&& forall|i: int| 0 <= i < self.builds@.len() ==> (#[trigger] self.builds@[i])
            <= cfg.lines@[i].parallel
        &&& forall|i: int| 0 <= i < self.books@.len() ==> (#[trigger] self.books@[i]).wf()
    }
}

/// The sum, over the given lines, of what their committed builds produce of
/// `item`, saturating at `AVAIL_CAP`.
pub open spec fn building_sum(
    lines: Seq<ProductionLine>,
    builds: Seq<u64>,
    loc_lines: Seq<usize>,
    item: Item,
) -> int
    decreases loc_lines.len(),
{
    if loc_lines.len() == 0 {
        0
    } else {
        let l = loc_lines[0] as int;
        let own = if 0 <= l < lines.len() && lines[l].product == item {
            cap_iqmul(lines[l].portion as int, if 0 <= l < builds.len() {
                builds[l] as int
            } else {
                0
            })
        } else {
            0
        };
        cap_iadd(own, building_sum(lines, builds, loc_lines.skip(1), item))
    }
}

/// The sum of pending deliveries of `item` over the given pipes,
/// saturating at `AVAIL_CAP`.
pub open spec fn pipes_sum(
    deliveries: Seq<Vec<(Item, u64)>>,
    pipe_idxs: Seq<usize>,
    item: Item,
) -> int
    decreases pipe_idxs.len(),
{
    if pipe_idxs.len() == 0 {
        0
    } else {
        let p = pipe_idxs[0] as int;
        let own = if 0 <= p < deliveries.len() {
            lookup_qty(deliveries[p]@, item)
        } else {
            0
        };
        cap_iadd(own, pipes_sum(deliveries, pipe_idxs.skip(1), item))
    }
}

/// Items of `item` bought at the location's market under `context`, if the
/// item is marketable there.
pub open spec fn purchased_at(
    cfg: PlanCfg,
    st: PlanState,
    loc: int,
    item: Item,
    context: Option<u64>,
) -> int {
    if item.spec_is_marketable() && cfg.locations@[loc].market is Some {
        match lookup_book(cfg.locations@[loc].books@, item.type_id) {
            Some(b) => st.books@[b as int].effective_reserved(context) / (QTY_DENOM as int),
            None => 0,
        }
    } else {
        0
    }
}

/// How many of `item` the plan can count on at location `loc`: assets on
/// hand, plus market purchases, plus committed production, plus inbound
/// deliveries, minus outbound deliveries, minus what builds consumed. Each
/// step saturates at `AVAIL_CAP`.
pub open spec fn available_model(
    cfg: PlanCfg,
    st: PlanState,
    loc: int,
    item: Item,
    context: Option<u64>,
) -> int {
    let location = cfg.locations@[loc];
    let a0 = lookup_signed(location.assets@, item);
    let a1 = cap_iadd(a0, purchased_at(cfg, st, loc, item, context));
    let a2 = cap_iadd(a1, building_sum(cfg.lines@, st.builds@, location.lines@, item));
    let a3 = cap_iadd(a2, pipes_sum(st.deliveries@, location.import_pipes@, item));
    let a4 = cap_iadd(a3, -pipes_sum(st.deliveries@, location.export_pipes@, item));
    cap_iadd(a4, -lookup_qty(st.consumed@[loc]@, item))
}

/// Every partial sum stays within the availability cap.
pub proof fn lemma_building_sum_bounds(
    lines: Seq<ProductionLine>,
    builds: Seq<u64>,
    loc_lines: Seq<usize>,
    item: Item,
)
    ensures
        0 <= building_sum(lines, builds, loc_lines, item) <= AVAIL_CAP,
    decreases loc_lines.len(),
{
    if loc_lines.len() == 0 {
    } else {
        let l = loc_lines[0] as int;
        if 0 <= l < lines.len() && lines[l].product == item {
            let b: int = if 0 <= l < builds.len() {
                builds[l] as int
            } else {
                0
            };
            assert(lines[l].portion as int * b >= 0) by (nonlinear_arith)
                requires
                    lines[l].portion as int >= 0,
                    b >= 0,
            ;
        }
        lemma_building_sum_bounds(lines, builds, loc_lines.skip(1), item);
    }
}

pub proof fn lemma_pipes_sum_bounds(
    deliveries: Seq<Vec<(Item, u64)>>,
    pipe_idxs: Seq<usize>,
    item: Item,
)
    ensures
        0 <= pipes_sum(deliveries, pipe_idxs, item) <= AVAIL_CAP,
    decreases pipe_idxs.len(),
{
    if pipe_idxs.len() == 0 {
    } else {
        let p = pipe_idxs[0] as int;
        if 0 <= p < deliveries.len() {
            crate::ledger::lemma_ledger_nonneg(deliveries[p]@, item);
        }
        lemma_pipes_sum_bounds(deliveries, pipe_idxs.skip(1), item);
    }
}

/// Sums committed production of `item` over the given lines.
fn building_sum_exec(cfg: &PlanCfg, st: &PlanState, loc_lines: &Vec<usize>, item: Item) -> (r:
    i128)
    requires
        st.wf(*cfg),
        forall|j: int| 0 <= j < loc_lines@.len() ==> (#[trigger] loc_lines@[j])
            < cfg.lines@.len(),
    ensures
        r == building_sum(cfg.lines@, st.builds@, loc_lines@, item),
        -(AVAIL_CAP as int) <= r <= AVAIL_CAP,
{
    let ghost idxs = loc_lines@;
    proof {
        assert(idxs.skip(0) =~= idxs);
        lemma_building_sum_bounds(cfg.lines@, st.builds@, idxs, item);
    }
    let mut acc: i128 = 0;
    let mut i: usize = 0;
    while i < loc_lines.len()
        invariant
            0 <= i <= idxs.len(),
            loc_lines@ == idxs,
            st.wf(*cfg),
            forall|j: int| 0 <= j < idxs.len() ==> (#[trigger] idxs[j]) < cfg.lines@.len(),
            0 <= acc <= AVAIL_CAP,
            cap_iadd(acc as int, building_sum(cfg.lines@, st.builds@, idxs.skip(i as int), item))
                == building_sum(cfg.lines@, st.builds@, idxs, item),
        decreases idxs.len() - i,
    {
        proof {
            assert(idxs.skip(i as int)[0] == idxs[i as int]);
            assert(idxs.skip(i as int).skip(1) =~= idxs.skip(i as int + 1));
            lemma_building_sum_bounds(cfg.lines@, st.builds@, idxs.skip(i as int + 1), item);
            let l = idxs[i as int] as int;
            let own_spec: int = if cfg.lines@[l].product == item {
                cap_iqmul(cfg.lines@[l].portion as int, st.builds@[l] as int)
            } else {
                0
            };
            assert(own_spec >= 0) by {
                if cfg.lines@[l].product == item {
                    assert(cfg.lines@[l].portion as int * st.builds@[l] as int >= 0)
                        by (nonlinear_arith)
                        requires
                            cfg.lines@[l].portion as int >= 0,
                            st.builds@[l] as int >= 0,
                    ;
                }
            }
            crate::lemma_cap_iadd_assoc(
                acc as int,
                own_spec,
                building_sum(cfg.lines@, st.builds@, idxs.skip(i as int + 1), item),
            );
        }
        let l = loc_lines[i];
        let line = &cfg.lines[l];
        if line.product == item {
            let own: i128 = crate::avail_mul(line.portion, st.builds[l]);
            acc = crate::avail_add(acc, own);
        }
        i = i + 1;
    }
    proof {
        assert(idxs.skip(i as int).len() == 0);
    }
    acc
}

/// Sums pending deliveries of `item` over the given pipes.
fn pipes_sum_exec(st: &PlanState, pipe_idxs: &Vec<usize>, item: Item) -> (r: i128)
    requires
        forall|j: int| 0 <= j < pipe_idxs@.len() ==> (#[trigger] pipe_idxs@[j])
            < st.deliveries@.len(),
    ensures
        r == pipes_sum(st.deliveries@, pipe_idxs@, item),
        -(AVAIL_CAP as int) <= r <= AVAIL_CAP,
{
    let ghost idxs = pipe_idxs@;
    proof {
        assert(idxs.skip(0) =~= idxs);
        lemma_pipes_sum_bounds(st.deliveries@, idxs, item);
    }
    let mut acc: i128 = 0;
    let mut i: usize = 0;
    while i < pipe_idxs.len()
        invariant
            0 <= i <= idxs.len(),
            pipe_idxs@ == idxs,
            forall|j: int| 0 <= j < idxs.len() ==> (#[trigger] idxs[j]) < st.deliveries@.len(),
            0 <= acc <= AVAIL_CAP,
            cap_iadd(acc as int, pipes_sum(st.deliveries@, idxs.skip(i as int), item))
                == pipes_sum(st.deliveries@, idxs, item),
        decreases idxs.len() - i,
    {
        proof {
            assert(idxs.skip(i as int)[0] == idxs[i as int]);
            assert(idxs.skip(i as int).skip(1) =~= idxs.skip(i as int + 1));
            lemma_pipes_sum_bounds(st.deliveries@, idxs.skip(i as int + 1), item);
            crate::ledger::lemma_ledger_nonneg(st.deliveries@[idxs[i as int] as int]@, item);
            crate::lemma_cap_iadd_assoc(
                acc as int,
                lookup_qty(st.deliveries@[idxs[i as int] as int]@, item),
                pipes_sum(st.deliveries@, idxs.skip(i as int + 1), item),
            );
        }
        let p = pipe_idxs[i];
        let own: u64 = get_qty(&st.deliveries[p], item);
        acc = crate::avail_add(acc, own as i128);
        i = i + 1;
    }
    proof {
        assert(idxs.skip(i as int).len() == 0);
    }
    acc
}

/// How many of `item` are on hand (or already arranged for) at `loc`,
/// clamped into a machine word.
pub fn num_available(
    cfg: &PlanCfg,
    st: &PlanState,
    loc: usize,
    item: Item,
    context: Option<u64>,
) -> (r: i64)
    requires
        cfg.wf(),
        st.wf(*cfg),
        loc < cfg.locations@.len(),
    ensures
        r == clamp_i64(available_model(*cfg, *st, loc as int, item, context)),
{
    let location = &cfg.locations[loc];
    let a0: i128 = get_signed(&location.assets, item) as i128;

    let purchased: i128 = if item.is_marketable() && location.market.is_some() {
        match get_book(&location.books, item.type_id) {
            Some(b) => {
                proof {
                    assert(cfg.location_wf(cfg.locations@[loc as int]));
                    lemma_lookup_book_bound(location.books@, item.type_id, cfg.num_books);
                }
                let book = &st.books[b];
                let tentative: u64 = match context {
                    Some(c) => {
                        if book.reserved_current_context == c {
                            book.reserved_current
                        } else {
                            0
                        }
                    },
                    None => 0,
                };
                let eff: u128 = book.reserved as u128 + tentative as u128;
                (eff / (QTY_DENOM as u128)) as i128
            },
            None => 0,
        }
    } else {
        0
    };
    let a1: i128 = crate::avail_add(a0, purchased);

    let built: i128 = building_sum_exec(cfg, st, &location.lines, item);
    let a2: i128 = crate::avail_add(a1, built);

    let imported: i128 = pipes_sum_exec(st, &location.import_pipes, item);
    let a3: i128 = crate::avail_add(a2, imported);

    let exported: i128 = pipes_sum_exec(st, &location.export_pipes, item);
    let a4: i128 = crate::avail_add(a3, -exported);

    let consumed: u64 = get_qty(&st.consumed[loc], item);
    let a5: i128 = crate::avail_add(a4, -(consumed as i128));

    crate::to_i64(a5)
}

/// What the plan wants present of `item` at `loc`.
pub fn num_target(cfg: &PlanCfg, loc: usize, item: Item) -> (r: u64)
    requires
        cfg.wf(),
        loc < cfg.locations@.len(),
    ensures
        r == lookup_qty(cfg.assets_target@[loc as int]@, item),
{
    get_qty(&cfg.assets_target[loc], item)
}

/// Component-wise saturating addition of slot requirements.
pub open spec fn add3(a: (int, int, int), b: (int, int, int)) -> (int, int, int) {
    (sat_add_usize(a.0, b.0), sat_add_usize(a.1, b.1), sat_add_usize(a.2, b.2))
}

/// The requirement of one job of the given kind, as
/// (manufacturing, reaction, science).
pub open spec fn base_slots(kind: ManufacturingKind) -> (int, int, int) {
    match kind.spec_slot_kind() {
        IndustrySlot::Manufacturing => (1int, 0int, 0int),
        IndustrySlot::Reaction => (0int, 1int, 0int),
        IndustrySlot::Science => (0int, 0int, 1int),
    }
}

/// The slots one build of `line` books across the whole sub-line tree:
/// its own job plus, recursively, one build of every providing line.
pub open spec fn max_slots_model(cfg: PlanCfg, line: int) -> (int, int, int)
    decreases cfg.lines@[line].rank, cfg.lines@[line].materials@.len() + 1,
        when cfg.wf() && 0 <= line < cfg.lines@.len()
{
    add3(base_slots(cfg.lines@[line].kind), sub_slots_from(cfg, line, 0))
}

/// The slots booked by the providing lines of materials `i..` of `line`.
pub open spec fn sub_slots_from(cfg: PlanCfg, line: int, i: int) -> (int, int, int)
    decreases cfg.lines@[line].rank, cfg.lines@[line].materials@.len() - i,
        when cfg.wf() && 0 <= line < cfg.lines@.len() && 0 <= i
{
    if i >= cfg.lines@[line].materials@.len() {
        (0int, 0int, 0int)
    } else {
        let rest = sub_slots_from(cfg, line, i + 1);
        match cfg.lines@[line].materials@[i].source_line {
            Some(l) => add3(max_slots_model(cfg, l as int), rest),
            None => rest,
        }
    }
}

proof fn lemma_add3_assoc(a: (int, int, int), b: (int, int, int), c: (int, int, int))
    requires
        a.0 >= 0 && a.1 >= 0 && a.2 >= 0,
        b.0 >= 0 && b.1 >= 0 && b.2 >= 0,
        c.0 >= 0 && c.1 >= 0 && c.2 >= 0,
    ensures
        add3(add3(a, b), c) == add3(a, add3(b, c)),
{
}

/// Every component of a slot requirement is within the machine word.
pub proof fn lemma_max_slots_bounds(cfg: PlanCfg, line: int)
    requires
        cfg.wf(),
        0 <= line < cfg.lines@.len(),
    ensures
        ({
            let m = max_slots_model(cfg, line);
            0 <= m.0 <= usize::MAX && 0 <= m.1 <= usize::MAX && 0 <= m.2 <= usize::MAX
        }),
    decreases cfg.lines@[line].rank, cfg.lines@[line].materials@.len() + 1,
{
    lemma_sub_slots_bounds(cfg, line, 0);
}

pub proof fn lemma_sub_slots_bounds(cfg: PlanCfg, line: int, i: int)
    requires
        cfg.wf(),
        0 <= line < cfg.lines@.len(),
        0 <= i,
    ensures
        ({
            let m = sub_slots_from(cfg, line, i);
            0 <= m.0 <= usize::MAX && 0 <= m.1 <= usize::MAX && 0 <= m.2 <= usize::MAX
        }),
    decreases cfg.lines@[line].rank, cfg.lines@[line].materials@.len() - i,
{
    if i >= cfg.lines@[line].materials@.len() {
    } else {
        lemma_sub_slots_bounds(cfg, line, i + 1);
        assert(cfg.line_wf(cfg.lines@[line]));
        match cfg.lines@[line].materials@[i].source_line {
            Some(l) => {
                assert(cfg.material_wf(cfg.lines@[line].materials@[i], cfg.lines@[line].rank));
                lemma_max_slots_bounds(cfg, l as int);
            },
            None => {},
        }
    }
}

/// The slots one build of `line` books, sub-lines included: intermediates
/// pre-book their whole tree.
pub fn max_slots(cfg: &PlanCfg, line: usize) -> (r: IndustrySlots)
    requires
        cfg.wf(),
        line < cfg.lines@.len(),
    ensures
        (r.manufacturing as int, r.reaction as int, r.science as int) == max_slots_model(
            *cfg,
            line as int,
        ),
    decreases cfg.lines@[line as int].rank,
{
    let l = &cfg.lines[line];
    let mut slots = IndustrySlots::from_slot(l.kind.slot_kind());
    let mut i: usize = 0;
    proof {
        assert(cfg.line_wf(cfg.lines@[line as int]));
        lemma_sub_slots_bounds(*cfg, line as int, 0);
    }
    while i < l.materials.len()
        invariant
            cfg.wf(),
            line < cfg.lines@.len(),
            l == &cfg.lines@[line as int],
            0 <= i <= l.materials@.len(),
            add3(
                (slots.manufacturing as int, slots.reaction as int, slots.science as int),
                sub_slots_from(*cfg, line as int, i as int),
            ) == max_slots_model(*cfg, line as int),
        decreases l.materials@.len() - i,
    {
        proof {
            assert(cfg.line_wf(cfg.lines@[line as int]));
            lemma_sub_slots_bounds(*cfg, line as int, i as int + 1);
        }
        match l.materials[i].source_line {
            Some(sub) => {
                proof {
                    assert(cfg.material_wf(
                        cfg.lines@[line as int].materials@[i as int],
                        cfg.lines@[line as int].rank,
                    ));
                    lemma_max_slots_bounds(*cfg, sub as int);
                    lemma_add3_assoc(
                        (
                            slots.manufacturing as int,
                            slots.reaction as int,
                            slots.science as int,
                        ),
                        max_slots_model(*cfg, sub as int),
                        sub_slots_from(*cfg, line as int, i as int + 1),
                    );
                }
                let sub_slots = max_slots(cfg, sub);
                slots.manufacturing = crate::slot_add(slots.manufacturing, sub_slots.manufacturing);
                slots.reaction = crate::slot_add(slots.reaction, sub_slots.reaction);
                slots.science = crate::slot_add(slots.science, sub_slots.science);
            },
            None => {},
        }
        i = i + 1;
    }
    slots
}

/// Whether building `line` once would still serve unmet demand at its
/// export destination: what is available there falls short of the target
/// (intermediates count what the destination re-exports as demand too).
pub open spec fn should_build_model(cfg: PlanCfg, st: PlanState, line: int) -> bool {
    let l = cfg.lines@[line];
    let avail = clamp_i64(available_model(cfg, st, l.export_dst as int, l.product, None));
    let target = lookup_qty(cfg.assets_target@[l.export_dst as int]@, l.product);
    let exported = if l.export_kind == ProductionLineExportKind::Intermediate {
        pipes_sum(st.deliveries@, cfg.locations@[l.export_dst as int].export_pipes@, l.product)
    } else {
        0
    };
    avail < target + exported
}

pub fn should_build_and_deliver(cfg: &PlanCfg, st: &PlanState, line: usize) -> (r: bool)
    requires
        cfg.wf(),
        st.wf(*cfg),
        line < cfg.lines@.len(),
    ensures
        r == should_build_model(*cfg, *st, line as int),
{
    proof {
        assert(cfg.line_wf(cfg.lines@[line as int]));
    }
    let l = &cfg.lines[line];
    let avail: i64 = num_available(cfg, st, l.export_dst, l.product, None);
    let target: u64 = num_target(cfg, l.export_dst, l.product);
    let exported: i128 = match l.export_kind {
        ProductionLineExportKind::Intermediate => pipes_sum_exec(
            st,
            &cfg.locations[l.export_dst].export_pipes,
            l.product,
        ),
        ProductionLineExportKind::Product => 0,
    };
    (avail as i128) < target as i128 + exported
}

/// Whether `line` may be committed now: its whole slot requirement fits,
/// its parallel capacity is not exhausted, and demand is unmet.
pub open spec fn can_build_model(cfg: PlanCfg, st: PlanState, line: int) -> bool {
    let m = max_slots_model(cfg, line);
    &&& st.slots.manufacturing >= m.0
    &&& st.slots.reaction >= m.1
    &&& st.slots.science >= m.2
    &&& st.builds@[line] < cfg.lines@[line].parallel
    &&& should_build_model(cfg, st, line)
}

pub fn can_build(cfg: &PlanCfg, st: &PlanState, line: usize) -> (r: bool)
    requires
        cfg.wf(),
        st.wf(*cfg),
        line < cfg.lines@.len(),
    ensures
        r == can_build_model(*cfg, *st, line as int),
{
    let needed = max_slots(cfg, line);
    if !st.slots.can_use_slots(&needed) {
        return false;
    }
    if st.builds[line] >= cfg.lines[line].parallel {
        return false;
    }
    should_build_and_deliver(cfg, st, line)
}

// ---------------------------------------------------------------------
// The profit evaluator. A probe never touches the shared ledger: it owns
// a private overlay of extra reservations, one counter per order book,
// and reads the books through it. Discarding the overlay discards the
// probe.
// ---------------------------------------------------------------------

/// An overlay with nothing reserved.
pub open spec fn zero_overlay(n: int) -> Seq<u64> {
    Seq::new(n as nat, |i: int| 0u64)
}

/// A per-horizon material quantity rescaled to `num_produced` thousandths
/// of output, in thousandths; without a requested amount, the whole
/// horizon bill.
pub open spec fn scaled_qty_model(quantity: u64, num_produced: Option<u64>, portion: u64) -> int {
    match num_produced {
        Some(np) => if portion == 0 {
            u64::MAX as int
        } else {
            let v = quantity as int * np as int / portion as int;
            if v > u64::MAX {
                u64::MAX as int
            } else {
                v
            }
        },
        None => crate::sat_mul64(quantity as int, QTY_DENOM as int),
    }
}

pub fn scaled_qty(quantity: u64, num_produced: Option<u64>, portion: u64) -> (r: u64)
    ensures
        r == scaled_qty_model(quantity, num_produced, portion),
{
    match num_produced {
        Some(np) => {
            if portion == 0 {
                u64::MAX
            } else {
                proof {
                    assert(quantity as int * np as int <= u128::MAX as int) by (nonlinear_arith)
                        requires
                            quantity as int <= u64::MAX as int,
                            np as int <= u64::MAX as int,
                    ;
                }
                let v: u128 = quantity as u128 * np as u128 / portion as u128;
                if v > u64::MAX as u128 {
                    u64::MAX
                } else {
                    v as u64
                }
            }
        },
        None => crate::qty_mul(quantity, QTY_DENOM),
    }
}

/// A rescaled quantity always fits the machine word.
pub proof fn lemma_scaled_qty_bounds(quantity: u64, num_produced: Option<u64>, portion: u64)
    ensures
        0 <= scaled_qty_model(quantity, num_produced, portion) <= u64::MAX,
{
    match num_produced {
        Some(np) => {
            if portion != 0 {
                assert(quantity as int * np as int >= 0) by (nonlinear_arith)
                    requires
                        quantity as int >= 0,
                        np as int >= 0,
                ;
                assert(quantity as int * np as int / portion as int >= 0) by (nonlinear_arith)
                    requires
                        quantity as int * np as int >= 0,
                        portion as int >= 1,
                ;
            }
        },
        None => {
            assert(quantity as int * QTY_DENOM as int >= 0) by (nonlinear_arith)
                requires
                    quantity as int >= 0,
            ;
        },
    }
}

/// What one unit delivered through a pipe costs: the order price plus the
/// volume fee plus the collateral fee.
pub open spec fn delivered_price_model(price: int, rate: DeliveryRate, vol_milli: int) -> int {
    crate::cap_add(
        crate::cap_add(
            price,
            crate::cap_mul_div(rate.m3_rate as int, vol_milli, QTY_DENOM as int),
        ),
        crate::cap_mul_div(rate.collateral_rate as int, price, crate::RATE_DENOM as int),
    )
}

fn delivered_price(price: u128, rate: DeliveryRate, vol_milli: u64) -> (r: u128)
    requires
        price <= crate::MONEY_CAP,
        rate.m3_rate <= crate::MONEY_CAP,
    ensures
        r == delivered_price_model(price as int, rate, vol_milli as int),
        r <= crate::MONEY_CAP,
{
    let m3_fee = crate::money_mul_div(rate.m3_rate, vol_milli as u128, QTY_DENOM);
    let coll_fee = crate::money_mul_div(rate.collateral_rate as u128, price, crate::RATE_DENOM);
    crate::money_add(crate::money_add(price, m3_fee), coll_fee)
}

/// What one source offers right now: the delivered unit price and the
/// available volume of its next order slice.
pub open spec fn candidate_model(
    books: Seq<TypeMarketOrders>,
    overlay: Seq<u64>,
    src: MarketSrc,
    vol_milli: int,
) -> Option<(int, int)> {
    match books[src.book as int].probe_next_model(overlay[src.book as int]) {
        Some(o) => Some(
            (delivered_price_model(o.price as int, src.rate, vol_milli), o.volume as int),
        ),
        None => None,
    }
}

/// The cheapest source among `srcs[i..]`, starting from `best`; an earlier
/// source keeps ties.
pub open spec fn best_src_from(
    books: Seq<TypeMarketOrders>,
    overlay: Seq<u64>,
    srcs: Seq<MarketSrc>,
    vol_milli: int,
    i: int,
    best: Option<(MarketSrc, int, int)>,
) -> Option<(MarketSrc, int, int)>
    decreases srcs.len() - i,
    when 0 <= i
{
    if i >= srcs.len() {
        best
    } else {
        let best2 = match candidate_model(books, overlay, srcs[i], vol_milli) {
            Some((p, v)) => match best {
                Some((s0, p0, v0)) => if p < p0 {
                    Some((srcs[i], p, v))
                } else {
                    best
                },
                None => Some((srcs[i], p, v)),
            },
            None => best,
        };
        best_src_from(books, overlay, srcs, vol_milli, i + 1, best2)
    }
}

/// Converts an executable best-candidate into its model form.
pub open spec fn opt_best(b: Option<(MarketSrc, u128, u64)>) -> Option<(MarketSrc, int, int)> {
    match b {
        Some((s, p, v)) => Some((s, p as int, v as int)),
        None => None,
    }
}

/// Scans the sources for the cheapest next order slice.
fn best_src(
    books: &Vec<TypeMarketOrders>,
    overlay: &Vec<u64>,
    srcs: &Vec<MarketSrc>,
    vol_milli: u64,
) -> (r: Option<(MarketSrc, u128, u64)>)
    requires
        forall|b: int| 0 <= b < books@.len() ==> (#[trigger] books@[b]).wf(),
        forall|k: int| 0 <= k < srcs@.len() ==> (#[trigger] srcs@[k]).book < books@.len()
            && srcs@[k].rate.m3_rate <= crate::MONEY_CAP,
        overlay@.len() == books@.len(),
    ensures
        opt_best(r) == best_src_from(books@, overlay@, srcs@, vol_milli as int, 0, None),
        r matches Some((s, p, v)) ==> s.book < books@.len() && p <= crate::MONEY_CAP && v >= 1,
{
    let mut best: Option<(MarketSrc, u128, u64)> = None;
    let mut i: usize = 0;
    while i < srcs.len()
        invariant
            0 <= i <= srcs@.len(),
            forall|b: int| 0 <= b < books@.len() ==> (#[trigger] books@[b]).wf(),
            forall|k: int| 0 <= k < srcs@.len() ==> (#[trigger] srcs@[k]).book < books@.len()
                && srcs@[k].rate.m3_rate <= crate::MONEY_CAP,
            overlay@.len() == books@.len(),
            best_src_from(books@, overlay@, srcs@, vol_milli as int, i as int, opt_best(best))
                == best_src_from(books@, overlay@, srcs@, vol_milli as int, 0, None),
            best matches Some((s, p, v)) ==> s.book < books@.len() && p <= crate::MONEY_CAP && v
                >= 1,
        decreases srcs@.len() - i,
    {
        let src = srcs[i];
        let extra: u64 = overlay[src.book];
        let next = books[src.book].probe_next(extra);
        match next {
            Some(order) => {
                proof {
                    let book = books@[src.book as int];
                    if book.reserved + extra < book.total {
                        crate::market::lemma_next_volume_pos(book.orders@, book.reserved + extra);
                        crate::market::lemma_next_price_capped(book.orders@, book.reserved + extra);
                    }
                }
                let p = delivered_price(order.price, src.rate, vol_milli);
                let replace = match &best {
                    Some((s0, p0, v0)) => p < *p0,
                    None => true,
                };
                if replace {
                    best = Some((src, p, order.volume));
                }
            },
            None => {},
        }
        i = i + 1;
    }
    best
}

/// The cost and final overlay of greedily covering `remaining` thousandths
/// of an item from the sources, always taking the cheapest delivered slice
/// next; nothing when the sources run dry first.
pub open spec fn probe_from(
    books: Seq<TypeMarketOrders>,
    overlay: Seq<u64>,
    srcs: Seq<MarketSrc>,
    vol_milli: int,
    remaining: u64,
    acc: int,
) -> Option<(int, Seq<u64>)>
    decreases remaining,
{
    if remaining == 0 {
        Some((acc, overlay))
    } else {
        match best_src_from(books, overlay, srcs, vol_milli, 0, None) {
            None => None,
            Some((s, p, v)) => {
                let amt: int = if v < remaining {
                    v
                } else {
                    remaining as int
                };
                if amt < 1 {
                    None
                } else {
                    probe_from(
                        books,
                        overlay.update(
                            s.book as int,
                            crate::sat_add64(overlay[s.book as int] as int, amt) as u64,
                        ),
                        srcs,
                        vol_milli,
                        (remaining - amt) as u64,
                        crate::cap_add(acc, crate::cap_mul_div(p, amt, QTY_DENOM as int)),
                    )
                }
            },
        }
    }
}

/// Greedily reserves `qty` thousandths of an item across the sources on
/// the probe's overlay, returning the summed delivered cost.
fn probe_reserve(
    books: &Vec<TypeMarketOrders>,
    overlay: &mut Vec<u64>,
    srcs: &Vec<MarketSrc>,
    vol_milli: u64,
    qty: u64,
) -> (r: Option<u128>)
    requires
        forall|b: int| 0 <= b < books@.len() ==> (#[trigger] books@[b]).wf(),
        forall|k: int| 0 <= k < srcs@.len() ==> (#[trigger] srcs@[k]).book < books@.len()
            && srcs@[k].rate.m3_rate <= crate::MONEY_CAP,
        old(overlay)@.len() == books@.len(),
    ensures
        final(overlay)@.len() == books@.len(),
        match probe_from(books@, old(overlay)@, srcs@, vol_milli as int, qty, 0) {
            None => r is None,
            Some((c, ov)) => r == Some(c as u128) && final(overlay)@ == ov && 0 <= c
                <= crate::MONEY_CAP,
        },
{
    let mut remaining: u64 = qty;
    let mut cost: u128 = 0;
    while remaining > 0
        invariant
            forall|b: int| 0 <= b < books@.len() ==> (#[trigger] books@[b]).wf(),
            forall|k: int| 0 <= k < srcs@.len() ==> (#[trigger] srcs@[k]).book < books@.len()
                && srcs@[k].rate.m3_rate <= crate::MONEY_CAP,
            overlay@.len() == books@.len(),
            cost <= crate::MONEY_CAP,
            probe_from(books@, overlay@, srcs@, vol_milli as int, remaining, cost as int)
                == probe_from(books@, old(overlay)@, srcs@, vol_milli as int, qty, 0),
        decreases remaining,
    {
        let best = best_src(books, overlay, srcs, vol_milli);
        match best {
            None => {
                return None;
            },
            Some((src, price, avail)) => {
                let amt: u64 = if avail < remaining {
                    avail
                } else {
                    remaining
                };
                let ghost overlay_pre = overlay@;
                let current: u64 = overlay[src.book];
                overlay.set(src.book, crate::vol_add(current, amt));
                cost = crate::money_add(
                    cost,
                    crate::money_mul_div(price, amt as u128, QTY_DENOM),
                );
                remaining = remaining - amt;
            },
        }
    }
    Some(cost)
}

/// The first order book recorded for an item's volume: items missing from
/// the table have volume zero.
pub open spec fn item_volume(volumes: Seq<(Item, u64)>, item: Item) -> int {
    lookup_qty(volumes, item)
}

/// Market cost of materials `i..` of `line` at probe scale, threading the
/// overlay; sub-line-provided materials are skipped here.
pub open spec fn market_cost_from(
    cfg: PlanCfg,
    books: Seq<TypeMarketOrders>,
    overlay: Seq<u64>,
    line: int,
    num: Option<u64>,
    i: int,
    acc: int,
) -> Option<(int, Seq<u64>)>
    decreases cfg.lines@[line].materials@.len() - i,
    when 0 <= i
{
    let mats = cfg.lines@[line].materials@;
    if i >= mats.len() {
        Some((acc, overlay))
    } else {
        match mats[i].source_line {
            Some(_) => market_cost_from(cfg, books, overlay, line, num, i + 1, acc),
            None => {
                let qty = scaled_qty_model(mats[i].quantity, num, cfg.lines@[line].portion);
                let vol = item_volume(cfg.volumes@, mats[i].item);
                match probe_from(books, overlay, mats[i].market_srcs@, vol, qty as u64, 0) {
                    None => None,
                    Some((c, ov)) => market_cost_from(
                        cfg,
                        books,
                        ov,
                        line,
                        num,
                        i + 1,
                        crate::cap_add(acc, c),
                    ),
                }
            },
        }
    }
}

/// The lowest listed sale price for the line's product at its export
/// destination, if the line sells there.
pub open spec fn min_sell_model(books: Seq<TypeMarketOrders>, book: Option<usize>) -> Option<
    int,
> {
    match book {
        Some(b) => if books[b as int].orders@.len() > 0 {
            Some(books[b as int].orders@[0].price as int)
        } else {
            None
        },
        None => None,
    }
}

/// Installation cost attributed to `num_milli` thousandths of output.
pub open spec fn installation_for_model(line: ProductionLine, num_milli: int) -> int {
    if line.portion == 0 {
        crate::MONEY_CAP as int
    } else {
        crate::cap_mul_div(line.installation_cost as int, num_milli, QTY_DENOM as int)
            / line.portion as int
    }
}

pub fn installation_cost_for(line: &ProductionLine, num_milli: u64) -> (r: u128)
    requires
        line.installation_cost <= crate::MONEY_CAP,
    ensures
        r == installation_for_model(*line, num_milli as int),
        r <= crate::MONEY_CAP,
{
    if line.portion == 0 {
        crate::MONEY_CAP
    } else {
        let t = crate::money_mul_div(line.installation_cost, num_milli as u128, QTY_DENOM);
        t / (line.portion as u128)
    }
}

/// Law: the installation cost attributed to the whole horizon portion is
/// the line's installation cost itself, exactly, whenever the intermediate
/// product stays within the money cap.
pub proof fn lemma_installation_cost_roundtrip(line: ProductionLine)
    requires
        line.portion >= 1,
        line.installation_cost * line.portion <= crate::MONEY_CAP,
    ensures
        installation_for_model(line, line.portion * (QTY_DENOM as int)) == line.installation_cost,
{
    let inst = line.installation_cost as int;
    let p = line.portion as int;
    assert(inst * (p * QTY_DENOM) / (QTY_DENOM as int) == inst * p) by (nonlinear_arith)
        requires
            inst >= 0,
            p >= 0,
    ;
    assert(inst * p / p == inst) by (nonlinear_arith)
        requires
            p >= 1,
            inst >= 0,
    ;
}

/// The export-side fees and the market revenue of `num_milli` thousandths
/// of the line's product, given the already-reserved market cost (which
/// backs the collateral of an intermediate delivery).
pub open spec fn revenue_fees_model(
    cfg: PlanCfg,
    books: Seq<TypeMarketOrders>,
    line: int,
    num_milli: int,
    market_cost: int,
) -> (int, int) {
    let l = cfg.lines@[line];
    let volume = item_volume(cfg.volumes@, l.product);
    let min_sell = min_sell_model(books, l.export_book);
    let m3_fee = crate::cap_mul_div(
        crate::cap_mul_div(l.export_rate.m3_rate as int, volume, QTY_DENOM as int),
        num_milli,
        QTY_DENOM as int,
    );
    let coll_basis = match min_sell {
        Some(p) => crate::cap_mul_div(p, num_milli, QTY_DENOM as int),
        None => crate::cap_add(market_cost, installation_for_model(l, num_milli)),
    };
    let coll_fee = crate::cap_mul_div(
        l.export_rate.collateral_rate as int,
        coll_basis,
        crate::RATE_DENOM as int,
    );
    let delivery_fee = crate::cap_add(m3_fee, coll_fee);
    let revenue = match min_sell {
        Some(p) => crate::cap_mul_div(p, num_milli, QTY_DENOM as int),
        None => 0int,
    };
    let fees = if l.export_kind == ProductionLineExportKind::Product {
        let m = cfg.locations@[l.export_dst as int].market.unwrap();
        crate::cap_add(
            crate::cap_add(
                delivery_fee,
                crate::cap_mul_div(m.sales_tax as int, revenue, crate::RATE_DENOM as int),
            ),
            crate::cap_mul_div(m.brokers_fee as int, revenue, crate::RATE_DENOM as int),
        )
    } else {
        delivery_fee
    };
    (fees, revenue)
}

/// The full recursive profit of `line` at probe scale `num` (thousandths;
/// the whole horizon portion when absent), over the books as seen through
/// `overlay`: market cost of its own materials, export fees and revenue,
/// installation cost, plus the recursive profit of every providing line.
pub open spec fn profit_model(
    cfg: PlanCfg,
    books: Seq<TypeMarketOrders>,
    overlay: Seq<u64>,
    line: int,
    num: Option<u64>,
) -> Option<(Profit, Seq<u64>)>
    decreases cfg.lines@[line].rank, cfg.lines@[line].materials@.len() + 1,
    when cfg.wf() && 0 <= line < cfg.lines@.len()
{
    let l = cfg.lines@[line];
    match market_cost_from(cfg, books, overlay, line, num, 0, 0) {
        None => None,
        Some((mc, ov)) => {
            let np: int = match num {
                Some(n) => n as int,
                None => crate::sat_mul64(l.portion as int, QTY_DENOM as int),
            };
            let fees_rev = revenue_fees_model(cfg, books, line, np, mc);
            let inst: int = match num {
                Some(n) => installation_for_model(l, n as int),
                None => l.installation_cost as int,
            };
            let c0 = crate::cap_add(crate::cap_add(fees_rev.0, mc), inst);
            subs_from(cfg, books, ov, line, num, 0, c0, fees_rev.1)
        },
    }
}

/// Folds the recursive profit of the providing lines of materials `i..`
/// onto the accumulated cost and revenue.
pub open spec fn subs_from(
    cfg: PlanCfg,
    books: Seq<TypeMarketOrders>,
    overlay: Seq<u64>,
    line: int,
    num: Option<u64>,
    i: int,
    cost: int,
    revenue: int,
) -> Option<(Profit, Seq<u64>)>
    decreases cfg.lines@[line].rank, cfg.lines@[line].materials@.len() - i,
    when cfg.wf() && 0 <= line < cfg.lines@.len() && 0 <= i
{
    let mats = cfg.lines@[line].materials@;
    if i >= mats.len() {
        Some((Profit { cost: cost as u128, revenue: revenue as u128 }, overlay))
    } else {
        match mats[i].source_line {
            None => subs_from(cfg, books, overlay, line, num, i + 1, cost, revenue),
            Some(sub) => {
                let np_sub = scaled_qty_model(mats[i].quantity, num, cfg.lines@[line].portion);
                match profit_model(cfg, books, overlay, sub as int, Some(np_sub as u64)) {
                    None => None,
                    Some((p, ov)) => subs_from(
                        cfg,
                        books,
                        ov,
                        line,
                        num,
                        i + 1,
                        crate::cap_add(cost, p.cost as int),
                        crate::cap_add(revenue, p.revenue as int),
                    ),
                }
            },
        }
    }
}

/// Evaluates `line` on the probe's overlay.
pub fn profit_inner(
    cfg: &PlanCfg,
    books: &Vec<TypeMarketOrders>,
    overlay: &mut Vec<u64>,
    line: usize,
    num_produced: Option<u64>,
) -> (r: Option<Profit>)
    requires
        cfg.wf(),
        line < cfg.lines@.len(),
        forall|b: int| 0 <= b < books@.len() ==> (#[trigger] books@[b]).wf(),
        books@.len() == cfg.num_books,
        old(overlay)@.len() == books@.len(),
    ensures
        final(overlay)@.len() == books@.len(),
        match profit_model(*cfg, books@, old(overlay)@, line as int, num_produced) {
            None => r is None,
            Some((p, ov)) => r == Some(p) && final(overlay)@ == ov && p.cost <= crate::MONEY_CAP
                && p.revenue <= crate::MONEY_CAP,
        },
    decreases cfg.lines@[line as int].rank,
{
    proof {
        assert(cfg.line_wf(cfg.lines@[line as int]));
    }
    let l = &cfg.lines[line];
    let ghost overlay0 = overlay@;

    // market cost of this line's own market-provided materials
    let mut market_cost: u128 = 0;
    let mut i: usize = 0;
    while i < l.materials.len()
        invariant
            cfg.wf(),
            line < cfg.lines@.len(),
            l == &cfg.lines@[line as int],
            forall|b: int| 0 <= b < books@.len() ==> (#[trigger] books@[b]).wf(),
            books@.len() == cfg.num_books,
            overlay@.len() == books@.len(),
            overlay0 == old(overlay)@,
            0 <= i <= l.materials@.len(),
            market_cost <= crate::MONEY_CAP,
            market_cost_from(
                *cfg,
                books@,
                overlay@,
                line as int,
                num_produced,
                i as int,
                market_cost as int,
            ) == market_cost_from(*cfg, books@, overlay0, line as int, num_produced, 0, 0),
        decreases l.materials@.len() - i,
    {
        proof {
            assert(cfg.material_wf(
                cfg.lines@[line as int].materials@[i as int],
                cfg.lines@[line as int].rank,
            ));
        }
        let mat = &l.materials[i];
        match mat.source_line {
            Some(_) => {},
            None => {
                proof {
                    lemma_scaled_qty_bounds(
                        cfg.lines@[line as int].materials@[i as int].quantity,
                        num_produced,
                        cfg.lines@[line as int].portion,
                    );
                }
                let qty = scaled_qty(mat.quantity, num_produced, l.portion);
                let vol = get_qty(&cfg.volumes, mat.item);
                let ghost ov_pre = overlay@;
                match probe_reserve(books, overlay, &mat.market_srcs, vol, qty) {
                    Some(c) => {
                        market_cost = crate::money_add(market_cost, c);
                    },
                    None => {
                        proof {
                            let mats = cfg.lines@[line as int].materials@;
                            let qspec = scaled_qty_model(
                                mats[i as int].quantity,
                                num_produced,
                                cfg.lines@[line as int].portion,
                            );
                            assert(qty == qspec as u64);
                            assert(probe_from(
                                books@,
                                ov_pre,
                                mats[i as int].market_srcs@,
                                item_volume(cfg.volumes@, mats[i as int].item),
                                qspec as u64,
                                0,
                            ) is None);
                            assert(market_cost_from(
                                *cfg,
                                books@,
                                ov_pre,
                                line as int,
                                num_produced,
                                i as int,
                                market_cost as int,
                            ) is None);
                            assert(profit_model(
                                *cfg,
                                books@,
                                overlay0,
                                line as int,
                                num_produced,
                            ) is None);
                        }
                        return None;
                    },
                }
            },
        }
        i = i + 1;
    }
    let ghost mc_result = market_cost_from(
        *cfg,
        books@,
        overlay0,
        line as int,
        num_produced,
        0,
        0,
    );
    proof {
        assert(mc_result == Some((market_cost as int, overlay@)));
    }

    // export fees and market revenue
    let np: u64 = match num_produced {
        Some(n) => n,
        None => crate::qty_mul(l.portion, QTY_DENOM),
    };
    let volume: u64 = get_qty(&cfg.volumes, l.product);
    let min_sell: Option<u128> = match l.export_book {
        Some(b) => {
            let book = &books[b];
            book.min_sell()
        },
        None => None,
    };
    let m3_fee: u128 = crate::money_mul_div(
        crate::money_mul_div(l.export_rate.m3_rate, volume as u128, QTY_DENOM),
        np as u128,
        QTY_DENOM,
    );
    let inst_for_np: u128 = installation_cost_for(l, np);
    let coll_basis: u128 = match min_sell {
        Some(p) => crate::money_mul_div(p, np as u128, QTY_DENOM),
        None => crate::money_add(market_cost, inst_for_np),
    };
    let coll_fee: u128 = crate::money_mul_div(
        l.export_rate.collateral_rate as u128,
        coll_basis,
        crate::RATE_DENOM,
    );
    let delivery_fee: u128 = crate::money_add(m3_fee, coll_fee);
    let revenue: u128 = match min_sell {
        Some(p) => crate::money_mul_div(p, np as u128, QTY_DENOM),
        None => 0,
    };
    let fees: u128 = match l.export_kind {
        ProductionLineExportKind::Product => {
            let market = match &cfg.locations[l.export_dst].market {
                Some(m) => *m,
                None => {
                    proof {
                        assert(false);
                    }
                    LocationMarket { sales_tax: 0, brokers_fee: 0 }
                },
            };
            let sales_tax = crate::money_mul_div(
                market.sales_tax as u128,
                revenue,
                crate::RATE_DENOM,
            );
            let brokers = crate::money_mul_div(
                market.brokers_fee as u128,
                revenue,
                crate::RATE_DENOM,
            );
            crate::money_add(crate::money_add(delivery_fee, sales_tax), brokers)
        },
        ProductionLineExportKind::Intermediate => delivery_fee,
    };

    let inst_part: u128 = match num_produced {
        Some(_) => inst_for_np,
        None => l.installation_cost,
    };
    let mut profit = Profit {
        cost: crate::money_add(crate::money_add(fees, market_cost), inst_part),
        revenue,
    };

    // the recursive profit of every providing line
    let ghost overlay_mc = overlay@;
    let ghost cost0 = profit.cost as int;
    let ghost rev0 = profit.revenue as int;
    proof {
        let lsp = cfg.lines@[line as int];
        let frm = revenue_fees_model(*cfg, books@, line as int, np as int, market_cost as int);
        assert(fees as int == frm.0);
        assert(revenue as int == frm.1);
        let np_spec: int = match num_produced {
            Some(n) => n as int,
            None => crate::sat_mul64(lsp.portion as int, QTY_DENOM as int),
        };
        assert(np as int == np_spec);
        let inst_spec: int = match num_produced {
            Some(n) => installation_for_model(lsp, n as int),
            None => lsp.installation_cost as int,
        };
        assert(inst_part as int == inst_spec);
        assert(cost0 == crate::cap_add(crate::cap_add(frm.0, market_cost as int), inst_spec));
        assert(profit_model(*cfg, books@, overlay0, line as int, num_produced) == subs_from(
            *cfg,
            books@,
            overlay_mc,
            line as int,
            num_produced,
            0,
            cost0,
            rev0,
        ));
    }
    let mut j: usize = 0;
    while j < l.materials.len()
        invariant
            cfg.wf(),
            line < cfg.lines@.len(),
            l == &cfg.lines@[line as int],
            forall|b: int| 0 <= b < books@.len() ==> (#[trigger] books@[b]).wf(),
            books@.len() == cfg.num_books,
            overlay@.len() == books@.len(),
            overlay0 == old(overlay)@,
            0 <= j <= l.materials@.len(),
            profit.cost <= crate::MONEY_CAP,
            profit.revenue <= crate::MONEY_CAP,
            subs_from(
                *cfg,
                books@,
                overlay@,
                line as int,
                num_produced,
                j as int,
                profit.cost as int,
                profit.revenue as int,
            ) == profit_model(*cfg, books@, overlay0, line as int, num_produced),
        decreases l.materials@.len() - j,
    {
        proof {
            assert(cfg.material_wf(
                cfg.lines@[line as int].materials@[j as int],
                cfg.lines@[line as int].rank,
            ));
        }
        let mat = &l.materials[j];
        match mat.source_line {
            Some(sub) => {
                proof {
                    lemma_scaled_qty_bounds(
                        cfg.lines@[line as int].materials@[j as int].quantity,
                        num_produced,
                        cfg.lines@[line as int].portion,
                    );
                }
                let np_sub = scaled_qty(mat.quantity, num_produced, l.portion);
                let ghost ov_pre = overlay@;
                let ghost cost_pre = profit.cost as int;
                let ghost rev_pre = profit.revenue as int;
                match profit_inner(cfg, books, overlay, sub, Some(np_sub)) {
                    Some(p) => {
                        profit.add_assign(p);
                    },
                    None => {
                        proof {
                            let mats = cfg.lines@[line as int].materials@;
                            let np_spec = scaled_qty_model(
                                mats[j as int].quantity,
                                num_produced,
                                cfg.lines@[line as int].portion,
                            );
                            assert(np_sub == np_spec as u64);
                            assert(profit_model(
                                *cfg,
                                books@,
                                ov_pre,
                                sub as int,
                                Some(np_spec as u64),
                            ) is None);
                            assert(subs_from(
                                *cfg,
                                books@,
                                ov_pre,
                                line as int,
                                num_produced,
                                j as int,
                                cost_pre,
                                rev_pre,
                            ) is None);
                        }
                        return None;
                    },
                }
            },
            None => {},
        }
        j = j + 1;
    }
    Some(profit)
}

/// Adds `qty` of `item` onto a pipe's pending deliveries.
pub fn deliver(st: &mut PlanState, pipe: usize, item: Item, qty: u64)
    requires
        pipe < old(st).deliveries@.len(),
    ensures
        final(st).deliveries@.len() == old(st).deliveries@.len(),
        lookup_qty(final(st).deliveries@[pipe as int]@, item) == crate::sat_add64(
            lookup_qty(old(st).deliveries@[pipe as int]@, item),
            qty as int,
        ),
        forall|probe: Item| probe != item ==> lookup_qty(
            final(st).deliveries@[pipe as int]@,
            probe,
        ) == lookup_qty(old(st).deliveries@[pipe as int]@, probe),
        forall|p: int| 0 <= p < old(st).deliveries@.len() && p != pipe
            ==> final(st).deliveries@[p] == old(st).deliveries@[p],
        final(st).books == old(st).books,
        final(st).builds == old(st).builds,
        final(st).slots == old(st).slots,
        final(st).consumed == old(st).consumed,
{
    crate::ledger::add_qty(&mut st.deliveries[pipe], item, qty);
}

/// The outcome of a probe of `line` from a quiescent state: its profit
/// record, if every market-provided material in the sub-tree can be
/// covered.
pub open spec fn spec_profit_result(
    cfg: PlanCfg,
    st: PlanState,
    line: int,
    num: Option<u64>,
) -> Option<Profit> {
    match profit_model(cfg, st.books@, zero_overlay(cfg.num_books as int), line, num) {
        Some((p, ov)) => Some(p),
        None => None,
    }
}

/// Law: a profit probe reads nothing but the order books. Two probes of
/// the same line over the same books return the same record, whatever
/// else differs between the two plan states and however often the probe
/// is repeated: a probe's tentative reservations live in its own overlay
/// and cannot leak into another probe or into the shared ledger.
pub proof fn lemma_profit_probe_isolated(
    cfg: PlanCfg,
    st1: PlanState,
    st2: PlanState,
    line: int,
    num: Option<u64>,
)
    requires
        st1.books@ == st2.books@,
    ensures
        spec_profit_result(cfg, st1, line, num) == spec_profit_result(cfg, st2, line, num),
{
}

/// Evaluates `line` at probe scale `num_produced` (thousandths of output;
/// the whole horizon portion when absent) against the current order
/// books, committing nothing.
pub fn profit(cfg: &PlanCfg, st: &PlanState, line: usize, num_produced: Option<u64>) -> (r:
    Option<Profit>)
    requires
        cfg.wf(),
        st.wf(*cfg),
        line < cfg.lines@.len(),
    ensures
        r == spec_profit_result(*cfg, *st, line as int, num_produced),
        r matches Some(p) ==> p.cost <= crate::MONEY_CAP && p.revenue <= crate::MONEY_CAP,
{
    let mut overlay: Vec<u64> = Vec::new();
    let n: usize = st.books.len();
    while overlay.len() < n
        invariant
            overlay@.len() <= n,
            forall|k: int| 0 <= k < overlay@.len() ==> (#[trigger] overlay@[k]) == 0,
        decreases n - overlay@.len(),
    {
        overlay.push(0);
    }
    proof {
        assert(overlay@ =~= zero_overlay(cfg.num_books as int));
    }
    profit_inner(cfg, &st.books, &mut overlay, line, num_produced)
}

// ---------------------------------------------------------------------
// Committing builds.
// ---------------------------------------------------------------------

/// Permanent reservations summed over every order book, in thousandths.
pub open spec fn sum_reserved(books: Seq<TypeMarketOrders>) -> int
    decreases books.len(),
{
    if books.len() == 0 {
        0
    } else {
        books[0].reserved + sum_reserved(books.skip(1))
    }
}

/// Pending deliveries of `item` summed over every pipe.
pub open spec fn sum_item_deliveries(deliveries: Seq<Vec<(Item, u64)>>, item: Item) -> int
    decreases deliveries.len(),
{
    if deliveries.len() == 0 {
        0
    } else {
        lookup_qty(deliveries[0]@, item) + sum_item_deliveries(deliveries.skip(1), item)
    }
}

/// Replacing one book moves the reservation total by that book's change
/// alone.
pub proof fn lemma_sum_reserved_update(books: Seq<TypeMarketOrders>, i: int, v: TypeMarketOrders)
    requires
        0 <= i < books.len(),
    ensures
        sum_reserved(books.update(i, v)) == sum_reserved(books) - books[i].reserved + v.reserved,
    decreases books.len(),
{
    let t = books.update(i, v);
    if i == 0 {
        assert(t[0] == v);
        assert(t.skip(1) =~= books.skip(1));
    } else {
        assert(t[0] == books[0]);
        assert(t.skip(1) =~= books.skip(1).update(i - 1, v));
        lemma_sum_reserved_update(books.skip(1), i - 1, v);
        assert(books.skip(1)[i - 1] == books[i]);
    }
}

/// Replacing one pipe's ledger moves the item total by its change alone.
pub proof fn lemma_sum_item_deliveries_update(
    deliveries: Seq<Vec<(Item, u64)>>,
    i: int,
    v: Vec<(Item, u64)>,
    item: Item,
)
    requires
        0 <= i < deliveries.len(),
    ensures
        sum_item_deliveries(deliveries.update(i, v), item) == sum_item_deliveries(
            deliveries,
            item,
        ) - lookup_qty(deliveries[i]@, item) + lookup_qty(v@, item),
    decreases deliveries.len(),
{
    let t = deliveries.update(i, v);
    if i == 0 {
        assert(t[0] == v);
        assert(t.skip(1) =~= deliveries.skip(1));
    } else {
        assert(t[0] == deliveries[0]);
        assert(t.skip(1) =~= deliveries.skip(1).update(i - 1, v));
        lemma_sum_item_deliveries_update(deliveries.skip(1), i - 1, v, item);
        assert(deliveries.skip(1)[i - 1] == deliveries[i]);
    }
}

/// Two delivery states whose per-pipe quantities of `item` agree have the
/// same item total.
pub proof fn lemma_sum_item_deliveries_congruent(
    d1: Seq<Vec<(Item, u64)>>,
    d2: Seq<Vec<(Item, u64)>>,
    item: Item,
)
    requires
        d1.len() == d2.len(),
        forall|p: int| 0 <= p < d1.len() ==> lookup_qty((#[trigger] d1[p])@, item) == lookup_qty(
            d2[p]@,
            item,
        ),
    ensures
        sum_item_deliveries(d1, item) == sum_item_deliveries(d2, item),
    decreases d1.len(),
{
    if d1.len() == 0 {
    } else {
        assert forall|p: int| 0 <= p < d1.skip(1).len() implies lookup_qty(
            (#[trigger] d1.skip(1)[p])@,
            item,
        ) == lookup_qty(d2.skip(1)[p]@, item) by {
            assert(d1.skip(1)[p] == d1[p + 1]);
            assert(d2.skip(1)[p] == d2[p + 1]);
        }
        lemma_sum_item_deliveries_congruent(d1.skip(1), d2.skip(1), item);
    }
}

/// When reservations only grow, the total only grows.
pub proof fn lemma_sum_reserved_mono(b1: Seq<TypeMarketOrders>, b2: Seq<TypeMarketOrders>)
    requires
        b1.len() == b2.len(),
        forall|b: int| 0 <= b < b1.len() ==> (#[trigger] b1[b]).reserved <= b2[b].reserved,
    ensures
        sum_reserved(b1) <= sum_reserved(b2),
    decreases b1.len(),
{
    if b1.len() == 0 {
    } else {
        assert forall|b: int| 0 <= b < b1.skip(1).len() implies (
        #[trigger] b1.skip(1)[b]).reserved <= b2.skip(1)[b].reserved by {
            assert(b1.skip(1)[b] == b1[b + 1]);
            assert(b2.skip(1)[b] == b2[b + 1]);
        }
        lemma_sum_reserved_mono(b1.skip(1), b2.skip(1));
    }
}

/// When reservations only grow and the total grew by `delta`, no single
/// book grew by more than `delta`.
pub proof fn lemma_reserved_delta_bound(
    b1: Seq<TypeMarketOrders>,
    b2: Seq<TypeMarketOrders>,
    delta: int,
    b: int,
)
    requires
        b1.len() == b2.len(),
        forall|i: int| 0 <= i < b1.len() ==> (#[trigger] b1[i]).reserved <= b2[i].reserved,
        sum_reserved(b2) == sum_reserved(b1) + delta,
        0 <= b < b1.len(),
    ensures
        b2[b].reserved <= b1[b].reserved + delta,
    decreases b1.len(),
{
    assert forall|i: int| 0 <= i < b1.skip(1).len() implies (#[trigger] b1.skip(
        1,
    )[i]).reserved <= b2.skip(1)[i].reserved by {
        assert(b1.skip(1)[i] == b1[i + 1]);
        assert(b2.skip(1)[i] == b2[i + 1]);
    }
    if b == 0 {
        lemma_sum_reserved_mono(b1.skip(1), b2.skip(1));
    } else {
        lemma_sum_reserved_mono(b1.take(1), b2.take(1));
        assert(b1[0].reserved <= b2[0].reserved);
        let tail_delta = sum_reserved(b2.skip(1)) - sum_reserved(b1.skip(1));
        assert(b1.skip(1)[b - 1] == b1[b]);
        assert(b2.skip(1)[b - 1] == b2[b]);
        lemma_reserved_delta_bound(b1.skip(1), b2.skip(1), tail_delta, b - 1);
    }
}

/// No counter a commit of `quantity` of `item` touches can saturate: the
/// quantity in thousandths fits the word, every book has room for the
/// whole demand, and so does every pipe's pending quantity of the item.
pub open spec fn reserve_headroom(st: PlanState, item: Item, quantity: u64) -> bool {
    &&& quantity * QTY_DENOM <= u64::MAX
    &&& forall|b: int| 0 <= b < st.books@.len() ==> (#[trigger] st.books@[b]).reserved + quantity
        * QTY_DENOM <= u64::MAX
    &&& forall|p: int| 0 <= p < st.deliveries@.len() ==> lookup_qty(
        (#[trigger] st.deliveries@[p])@,
        item,
    ) + quantity <= u64::MAX
}

/// One exact chunk: the touched book's reservations and the touched
/// pipe's pending quantity each move by exactly the chunk, totals
/// included.
proof fn lemma_reserve_deliver_exact(
    pre: PlanState,
    mid: PlanState,
    post: PlanState,
    book: int,
    pipe: int,
    item: Item,
    milli: u64,
    chunk: u64,
)
    requires
        0 <= book < pre.books@.len(),
        0 <= pipe < pre.deliveries@.len(),
        mid.books@.len() == pre.books@.len(),
        mid.books@[book] == pre.books@[book].reserve_model(None, milli),
        forall|b: int| 0 <= b < pre.books@.len() && b != book ==> #[trigger] mid.books@[b]
            == pre.books@[b],
        mid.deliveries == pre.deliveries,
        post.books == mid.books,
        post.deliveries@.len() == mid.deliveries@.len(),
        lookup_qty(post.deliveries@[pipe]@, item) == crate::sat_add64(
            lookup_qty(mid.deliveries@[pipe]@, item),
            chunk as int,
        ),
        forall|q: int| 0 <= q < mid.deliveries@.len() && q != pipe
            ==> #[trigger] post.deliveries@[q] == mid.deliveries@[q],
        pre.books@[book].reserved + milli <= u64::MAX,
        lookup_qty(pre.deliveries@[pipe]@, item) + chunk <= u64::MAX,
    ensures
        sum_reserved(post.books@) == sum_reserved(pre.books@) + milli,
        sum_item_deliveries(post.deliveries@, item) == sum_item_deliveries(
            pre.deliveries@,
            item,
        ) + chunk,
{
    assert(mid.books@ =~= pre.books@.update(book, mid.books@[book]));
    lemma_sum_reserved_update(pre.books@, book, mid.books@[book]);
    crate::ledger::lemma_ledger_nonneg(pre.deliveries@[pipe]@, item);
    assert(post.deliveries@ =~= mid.deliveries@.update(pipe, post.deliveries@[pipe]));
    lemma_sum_item_deliveries_update(mid.deliveries@, pipe, post.deliveries@[pipe], item);
}

/// What a commit sees at one source: the next slice past the permanent
/// frontier, kept only when at least one whole item remains of it — as
/// (delivered unit price, whole items available).
pub open spec fn commit_candidate(
    books: Seq<TypeMarketOrders>,
    src: MarketSrc,
    vol_milli: int,
) -> Option<(int, u64)> {
    match books[src.book as int].probe_next_model(0u64) {
        Some(o) => if o.volume / QTY_DENOM >= 1 {
            Some(
                (
                    delivered_price_model(o.price as int, src.rate, vol_milli),
                    (o.volume / QTY_DENOM) as u64,
                ),
            )
        } else {
            None::<(int, u64)>
        },
        None => None::<(int, u64)>,
    }
}

/// The cheapest commit source among `srcs[k..]`, starting from `best`; an
/// earlier source keeps ties.
pub open spec fn commit_best_from(
    books: Seq<TypeMarketOrders>,
    srcs: Seq<MarketSrc>,
    vol_milli: int,
    k: int,
    best: Option<(MarketSrc, int, u64)>,
) -> Option<(MarketSrc, int, u64)>
    decreases srcs.len() - k,
    when 0 <= k
{
    if k >= srcs.len() {
        best
    } else {
        let best2 = match commit_candidate(books, srcs[k], vol_milli) {
            Some((p, w)) => match best {
                Some((s0, p0, w0)) => if p < p0 {
                    Some((srcs[k], p, w))
                } else {
                    best
                },
                None => Some((srcs[k], p, w)),
            },
            None => best,
        };
        commit_best_from(books, srcs, vol_milli, k + 1, best2)
    }
}

/// Converts an executable commit candidate into its model form.
pub open spec fn opt_commit_best(b: Option<(MarketSrc, u128, u64)>) -> Option<
    (MarketSrc, int, u64),
> {
    match b {
        Some((s, p, w)) => Some((s, p as int, w)),
        None => None::<(MarketSrc, int, u64)>,
    }
}

/// Law: a committed chunk is sourced at the cheapest delivered unit price
/// over all sources that still hold a whole item past their permanent
/// frontier; the earliest source keeps a tie.
fn cheapest_commit_source(st: &PlanState, srcs: &Vec<MarketSrc>, vol_milli: u64) -> (r: Option<
    (MarketSrc, u128, u64),
>)
    requires
        forall|b: int| 0 <= b < st.books@.len() ==> (#[trigger] st.books@[b]).wf(),
        forall|k: int| 0 <= k < srcs@.len() ==> (#[trigger] srcs@[k]).book < st.books@.len()
            && srcs@[k].rate.m3_rate <= crate::MONEY_CAP,
    ensures
        opt_commit_best(r) == commit_best_from(st.books@, srcs@, vol_milli as int, 0, None),
        r matches Some((s, p, w)) ==> p <= crate::MONEY_CAP && w >= 1 && exists|kk: int|
            0 <= kk < srcs@.len() && (#[trigger] srcs@[kk]) == s,
{
    let mut best: Option<(MarketSrc, u128, u64)> = None;
    let mut k: usize = 0;
    while k < srcs.len()
        invariant
            0 <= k <= srcs@.len(),
            forall|b: int| 0 <= b < st.books@.len() ==> (#[trigger] st.books@[b]).wf(),
            forall|j: int| 0 <= j < srcs@.len() ==> (#[trigger] srcs@[j]).book
                < st.books@.len() && srcs@[j].rate.m3_rate <= crate::MONEY_CAP,
            commit_best_from(st.books@, srcs@, vol_milli as int, k as int, opt_commit_best(best))
                == commit_best_from(st.books@, srcs@, vol_milli as int, 0, None),
            best matches Some((s, p, w)) ==> p <= crate::MONEY_CAP && w >= 1 && exists|kk: int|
                0 <= kk < srcs@.len() && (#[trigger] srcs@[kk]) == s,
        decreases srcs@.len() - k,
    {
        let src = srcs[k];
        match st.books[src.book].probe_next(0) {
            Some(order) => {
                proof {
                    let book = st.books@[src.book as int];
                    if book.reserved + 0 < book.total {
                        crate::market::lemma_next_price_capped(
                            book.orders@,
                            book.reserved as int,
                        );
                    }
                }
                let whole: u64 = order.volume / QTY_DENOM;
                if whole >= 1 {
                    let price = delivered_price(order.price, src.rate, vol_milli);
                    let replace = match &best {
                        Some((s0, p0, w0)) => price < *p0,
                        None => true,
                    };
                    if replace {
                        proof {
                            assert(srcs@[k as int] == src);
                        }
                        best = Some((src, price, whole));
                    }
                }
            },
            None => {},
        }
        k = k + 1;
    }
    best
}

/// The source whose market reports the greatest total depth among
/// `srcs[k..]`, starting from `best`; the earliest source keeps a tie.
pub open spec fn deepest_from(
    books: Seq<TypeMarketOrders>,
    srcs: Seq<MarketSrc>,
    k: int,
    best: Option<(MarketSrc, u64)>,
) -> Option<(MarketSrc, u64)>
    decreases srcs.len() - k,
    when 0 <= k
{
    if k >= srcs.len() {
        best
    } else {
        let depth = books[srcs[k].book as int].total;
        let best2 = match best {
            Some((s0, d0)) => if depth > d0 {
                Some((srcs[k], depth))
            } else {
                best
            },
            None => Some((srcs[k], depth)),
        };
        deepest_from(books, srcs, k + 1, best2)
    }
}

/// Law: the depth fallback books the shortfall against the source whose
/// market reports the greatest total depth; the earliest source keeps a
/// tie, and with at least one source there is always a pick.
fn deepest_commit_source(st: &PlanState, srcs: &Vec<MarketSrc>) -> (r: Option<(MarketSrc, u64)>)
    requires
        forall|k: int| 0 <= k < srcs@.len() ==> (#[trigger] srcs@[k]).book < st.books@.len(),
    ensures
        r == deepest_from(st.books@, srcs@, 0, None),
        srcs@.len() > 0 ==> r is Some,
        r matches Some((s, d)) ==> exists|kk: int|
            0 <= kk < srcs@.len() && (#[trigger] srcs@[kk]) == s,
{
    let mut best: Option<(MarketSrc, u64)> = None;
    let mut k: usize = 0;
    while k < srcs.len()
        invariant
            0 <= k <= srcs@.len(),
            forall|j: int| 0 <= j < srcs@.len() ==> (#[trigger] srcs@[j]).book
                < st.books@.len(),
            deepest_from(st.books@, srcs@, k as int, best) == deepest_from(
                st.books@,
                srcs@,
                0,
                None,
            ),
            k > 0 ==> best is Some,
            best matches Some((s, d)) ==> exists|kk: int|
                0 <= kk < srcs@.len() && (#[trigger] srcs@[kk]) == s,
        decreases srcs@.len() - k,
    {
        let src = srcs[k];
        let depth: u64 = st.books[src.book].total_volume();
        let replace = match &best {
            Some((s0, d0)) => depth > *d0,
            None => true,
        };
        if replace {
            proof {
                assert(srcs@[k as int] == src);
            }
            best = Some((src, depth));
        }
        k = k + 1;
    }
    best
}

/// A per-pipe delivery delta with nothing recorded.
pub open spec fn zero_delta(n: int) -> Seq<int> {
    Seq::new(n as nat, |i: int| 0int)
}

/// The whole commit, step by step: while demand remains, the cheapest
/// delivered source still holding a whole item takes a chunk of
/// min(its whole items, the remainder); when no source holds a whole
/// item, the deepest market takes the whole remainder. Yields the books
/// after every permanent reservation, and the per-pipe delta of the
/// item's pending deliveries.
pub open spec fn commit_model(
    books: Seq<TypeMarketOrders>,
    delta: Seq<int>,
    srcs: Seq<MarketSrc>,
    vol_milli: int,
    remaining: u64,
) -> (Seq<TypeMarketOrders>, Seq<int>)
    decreases remaining,
{
    if remaining == 0 {
        (books, delta)
    } else {
        match commit_best_from(books, srcs, vol_milli, 0, None) {
            Some((s, p, w)) => {
                let chunk: u64 = if w < remaining {
                    w
                } else {
                    remaining
                };
                if chunk == 0 {
                    (books, delta)
                } else {
                    commit_model(
                        books.update(
                            s.book as int,
                            books[s.book as int].reserve_model(
                                None,
                                crate::sat_mul64(chunk as int, QTY_DENOM as int) as u64,
                            ),
                        ),
                        delta.update(s.pipe as int, delta[s.pipe as int] + chunk),
                        srcs,
                        vol_milli,
                        (remaining - chunk) as u64,
                    )
                }
            },
            None => match deepest_from(books, srcs, 0, None) {
                Some((s, d)) => (
                    books.update(
                        s.book as int,
                        books[s.book as int].reserve_model(
                            None,
                            crate::sat_mul64(remaining as int, QTY_DENOM as int) as u64,
                        ),
                    ),
                    delta.update(s.pipe as int, delta[s.pipe as int] + remaining),
                ),
                None => (books, delta),
            },
        }
    }
}

/// Permanently reserves `quantity` whole items across the sources,
/// cheapest delivered slice first, and records each chunk as a pending
/// delivery on the pipe that hauls it. When no source has a whole item
/// left at its reservation frontier, the remaining shortfall is booked
/// against the source reporting the deepest market. The books end
/// exactly as the commit model says; where no counter can saturate, the
/// per-pipe deliveries grow exactly by the model's deltas, and the
/// reservations and deliveries each total exactly the requested
/// quantity.
pub fn permanent_reserve_from_market_and_deliver(
    cfg: &PlanCfg,
    st: &mut PlanState,
    srcs: &Vec<MarketSrc>,
    item: Item,
    quantity: u64,
)
    requires
        cfg.wf(),
        old(st).wf(*cfg),
        srcs@.len() > 0,
        forall|k: int| 0 <= k < srcs@.len() ==> (#[trigger] srcs@[k]).book < cfg.num_books
            && srcs@[k].pipe < cfg.pipes@.len() && srcs@[k].rate.m3_rate <= crate::MONEY_CAP,
    ensures
        final(st).wf(*cfg),
        final(st).builds == old(st).builds,
        final(st).slots == old(st).slots,
        final(st).consumed == old(st).consumed,
        forall|b: int| 0 <= b < old(st).books@.len() ==> {
            let post = #[trigger] final(st).books@[b];
            let pre = old(st).books@[b];
            post.orders == pre.orders && post.total == pre.total && post.reserved_current
                == pre.reserved_current && post.reserved_current_context
                == pre.reserved_current_context && post.reserved >= pre.reserved
        },
        forall|p: int, probe: Item|
            0 <= p < old(st).deliveries@.len() && probe != item ==> #[trigger] lookup_qty(
                final(st).deliveries@[p]@,
                probe,
            ) == lookup_qty(old(st).deliveries@[p]@, probe),
        forall|p: int| 0 <= p < old(st).deliveries@.len() ==> lookup_qty(
            #[trigger] final(st).deliveries@[p]@,
            item,
        ) >= lookup_qty(old(st).deliveries@[p]@, item),
        forall|b: int|
            0 <= b < old(st).books@.len() && (forall|k: int|
                0 <= k < srcs@.len() ==> (#[trigger] srcs@[k]).book != b)
                ==> #[trigger] final(st).books@[b] == old(st).books@[b],
        reserve_headroom(*old(st), item, quantity) ==> sum_reserved(final(st).books@)
            == sum_reserved(old(st).books@) + quantity * QTY_DENOM,
        reserve_headroom(*old(st), item, quantity) ==> sum_item_deliveries(
            final(st).deliveries@,
            item,
        ) == sum_item_deliveries(old(st).deliveries@, item) + quantity,
        final(st).books@ == commit_model(
            old(st).books@,
            zero_delta(old(st).deliveries@.len() as int),
            srcs@,
            item_volume(cfg.volumes@, item),
            quantity,
        ).0,
        reserve_headroom(*old(st), item, quantity) ==> forall|p: int|
            0 <= p < old(st).deliveries@.len() ==> #[trigger] lookup_qty(
                final(st).deliveries@[p]@,
                item,
            ) == lookup_qty(old(st).deliveries@[p]@, item) + commit_model(
                old(st).books@,
                zero_delta(old(st).deliveries@.len() as int),
                srcs@,
                item_volume(cfg.volumes@, item),
                quantity,
            ).1[p],
{
    let ghost target = commit_model(
        old(st).books@,
        zero_delta(old(st).deliveries@.len() as int),
        srcs@,
        item_volume(cfg.volumes@, item),
        quantity,
    );
    let ghost mut delta: Seq<int> = zero_delta(old(st).deliveries@.len() as int);
    let mut reserved: u64 = 0;
    while reserved < quantity
        invariant
            cfg.wf(),
            st.wf(*cfg),
            old(st).wf(*cfg),
            reserved <= quantity,
            srcs@.len() > 0,
            forall|k: int| 0 <= k < srcs@.len() ==> (#[trigger] srcs@[k]).book < cfg.num_books
                && srcs@[k].pipe < cfg.pipes@.len() && srcs@[k].rate.m3_rate
                <= crate::MONEY_CAP,
            st.builds == old(st).builds,
            st.slots == old(st).slots,
            st.consumed == old(st).consumed,
            forall|b: int| 0 <= b < old(st).books@.len() ==> {
                let post = #[trigger] st.books@[b];
                let pre = old(st).books@[b];
                post.orders == pre.orders && post.total == pre.total && post.reserved_current
                    == pre.reserved_current && post.reserved_current_context
                    == pre.reserved_current_context && post.reserved >= pre.reserved
            },
            forall|p: int, probe: Item|
                0 <= p < old(st).deliveries@.len() && probe != item ==> #[trigger] lookup_qty(
                    st.deliveries@[p]@,
                    probe,
                ) == lookup_qty(old(st).deliveries@[p]@, probe),
            forall|p: int| 0 <= p < old(st).deliveries@.len() ==> lookup_qty(
                #[trigger] st.deliveries@[p]@,
                item,
            ) >= lookup_qty(old(st).deliveries@[p]@, item),
            forall|b: int|
                0 <= b < old(st).books@.len() && (forall|k: int|
                    0 <= k < srcs@.len() ==> (#[trigger] srcs@[k]).book != b)
                    ==> #[trigger] st.books@[b] == old(st).books@[b],
            delta.len() == old(st).deliveries@.len(),
            commit_model(
                st.books@,
                delta,
                srcs@,
                item_volume(cfg.volumes@, item),
                (quantity - reserved) as u64,
            ) == target,
            reserve_headroom(*old(st), item, quantity) ==> forall|p: int|
                0 <= p < old(st).deliveries@.len() ==> #[trigger] lookup_qty(
                    st.deliveries@[p]@,
                    item,
                ) == lookup_qty(old(st).deliveries@[p]@, item) + delta[p],
            reserve_headroom(*old(st), item, quantity) ==> {
                &&& sum_reserved(st.books@) == sum_reserved(old(st).books@) + reserved * (
                QTY_DENOM as int)
                &&& sum_item_deliveries(st.deliveries@, item) == sum_item_deliveries(
                    old(st).deliveries@,
                    item,
                ) + reserved
                &&& forall|b: int| 0 <= b < old(st).books@.len() ==> (
                #[trigger] st.books@[b]).reserved <= old(st).books@[b].reserved + reserved * (
                QTY_DENOM as int)
                &&& forall|p: int| 0 <= p < old(st).deliveries@.len() ==> lookup_qty(
                    (#[trigger] st.deliveries@[p])@,
                    item,
                ) <= lookup_qty(old(st).deliveries@[p]@, item) + reserved
            },
        decreases quantity - reserved,
    {
        // the cheapest source that still has at least one whole item
        let volume: u64 = get_qty(&cfg.volumes, item);
        let cheapest = cheapest_commit_source(st, srcs, volume);
        match cheapest {
            Some((src, price, whole)) => {
                proof {
                    let kk = choose|kk: int|
                        0 <= kk < srcs@.len() && (#[trigger] srcs@[kk]) == src;
                    assert(src.book < cfg.num_books && src.pipe < cfg.pipes@.len());
                }
                let remaining: u64 = quantity - reserved;
                let chunk: u64 = if whole < remaining {
                    whole
                } else {
                    remaining
                };
                let milli: u64 = crate::qty_mul(chunk, QTY_DENOM);
                let ghost pre = *st;
                book_reserve(st, src.book, None, milli);
                let ghost mid = *st;
                deliver(st, src.pipe, item, chunk);
                proof {
                    // this chunk is exactly the commit model's next step
                    assert(volume == item_volume(cfg.volumes@, item));
                    assert(opt_commit_best(cheapest) == commit_best_from(
                        pre.books@,
                        srcs@,
                        item_volume(cfg.volumes@, item),
                        0,
                        None,
                    ));
                    assert(st.books@ =~= pre.books@.update(
                        src.book as int,
                        pre.books@[src.book as int].reserve_model(None, milli),
                    ));
                    delta = delta.update(src.pipe as int, delta[src.pipe as int] + chunk);
                    lemma_reserve_deliver_step(
                        pre,
                        mid,
                        *st,
                        *old(st),
                        src.book as int,
                        src.pipe as int,
                        item,
                        milli,
                        chunk,
                    );
                    if reserve_headroom(*old(st), item, quantity) {
                        assert(chunk * QTY_DENOM <= quantity * QTY_DENOM);
                        assert(milli == chunk * QTY_DENOM);
                        assert(pre.books@[src.book as int].reserved + milli <= u64::MAX);
                        crate::ledger::lemma_ledger_nonneg(
                            pre.deliveries@[src.pipe as int]@,
                            item,
                        );
                        lemma_reserve_deliver_exact(
                            pre,
                            mid,
                            *st,
                            src.book as int,
                            src.pipe as int,
                            item,
                            milli,
                            chunk,
                        );
                        assert forall|p: int| 0 <= p < old(st).deliveries@.len()
                            implies #[trigger] lookup_qty(st.deliveries@[p]@, item)
                            == lookup_qty(old(st).deliveries@[p]@, item) + delta[p] by {
                            if p != src.pipe as int {
                                assert(st.deliveries@[p] == mid.deliveries@[p]);
                                assert(mid.deliveries@[p] == pre.deliveries@[p]);
                            }
                        }
                    }
                }
                reserved = reserved + chunk;
            },
            None => {
                // no source has a whole item at its frontier: fall back to
                // the deepest market and book the shortfall there
                let deepest = deepest_commit_source(st, srcs);
                match deepest {
                    Some((src, depth)) => {
                        proof {
                            let kk = choose|kk: int|
                                0 <= kk < srcs@.len() && (#[trigger] srcs@[kk]) == src;
                            assert(src.book < cfg.num_books && src.pipe < cfg.pipes@.len());
                        }
                        let remaining: u64 = quantity - reserved;
                        let milli: u64 = crate::qty_mul(remaining, QTY_DENOM);
                        let ghost pre = *st;
                        book_reserve(st, src.book, None, milli);
                        let ghost mid = *st;
                        deliver(st, src.pipe, item, remaining);
                        proof {
                            // the shortfall lands exactly where the model says
                            assert(volume == item_volume(cfg.volumes@, item));
                            assert(opt_commit_best(cheapest) == commit_best_from(
                                pre.books@,
                                srcs@,
                                item_volume(cfg.volumes@, item),
                                0,
                                None,
                            ));
                            assert(deepest == deepest_from(pre.books@, srcs@, 0, None));
                            assert(st.books@ =~= pre.books@.update(
                                src.book as int,
                                pre.books@[src.book as int].reserve_model(None, milli),
                            ));
                            delta = delta.update(
                                src.pipe as int,
                                delta[src.pipe as int] + remaining,
                            );
                            lemma_reserve_deliver_step(
                                pre,
                                mid,
                                *st,
                                *old(st),
                                src.book as int,
                                src.pipe as int,
                                item,
                                milli,
                                remaining,
                            );
                            if reserve_headroom(*old(st), item, quantity) {
                                assert(remaining * QTY_DENOM <= quantity * QTY_DENOM);
                                assert(milli == remaining * QTY_DENOM);
                                assert(pre.books@[src.book as int].reserved + milli
                                    <= u64::MAX);
                                crate::ledger::lemma_ledger_nonneg(
                                    pre.deliveries@[src.pipe as int]@,
                                    item,
                                );
                                lemma_reserve_deliver_exact(
                                    pre,
                                    mid,
                                    *st,
                                    src.book as int,
                                    src.pipe as int,
                                    item,
                                    milli,
                                    remaining,
                                );
                                assert forall|p: int| 0 <= p < old(st).deliveries@.len()
                                    implies #[trigger] lookup_qty(st.deliveries@[p]@, item)
                                    == lookup_qty(old(st).deliveries@[p]@, item)
                                    + delta[p] by {
                                    if p != src.pipe as int {
                                        assert(st.deliveries@[p] == mid.deliveries@[p]);
                                        assert(mid.deliveries@[p] == pre.deliveries@[p]);
                                    }
                                }
                            }
                        }
                        reserved = quantity;
                    },
                    None => {
                        proof {
                            assert(false);
                        }
                    },
                }
            },
        }
    }
}


/// Carries the reservation-and-delivery frame facts across one chunk.
proof fn lemma_reserve_deliver_step(
    pre: PlanState,
    mid: PlanState,
    post: PlanState,
    base: PlanState,
    book: int,
    pipe: int,
    item: Item,
    milli: u64,
    chunk: u64,
)
    requires
        pre.books@.len() == base.books@.len(),
        pre.deliveries@.len() == base.deliveries@.len(),
        0 <= book < pre.books@.len(),
        0 <= pipe < pre.deliveries@.len(),
        // facts carried from the loop entry
        forall|b: int| 0 <= b < base.books@.len() ==> {
            let p0 = #[trigger] pre.books@[b];
            let b0 = base.books@[b];
            p0.orders == b0.orders && p0.total == b0.total && p0.reserved_current
                == b0.reserved_current && p0.reserved_current_context
                == b0.reserved_current_context && p0.reserved >= b0.reserved
        },
        forall|q: int, probe: Item|
            0 <= q < base.deliveries@.len() && probe != item ==> #[trigger] lookup_qty(
                pre.deliveries@[q]@,
                probe,
            ) == lookup_qty(base.deliveries@[q]@, probe),
        forall|q: int| 0 <= q < base.deliveries@.len() ==> lookup_qty(
            #[trigger] pre.deliveries@[q]@,
            item,
        ) >= lookup_qty(base.deliveries@[q]@, item),
        // what the reservation did
        mid.books@.len() == pre.books@.len(),
        mid.books@[book] == pre.books@[book].reserve_model(None, milli),
        forall|b: int| 0 <= b < pre.books@.len() && b != book ==> #[trigger] mid.books@[b]
            == pre.books@[b],
        mid.deliveries == pre.deliveries,
        // what the delivery did
        post.books == mid.books,
        post.deliveries@.len() == mid.deliveries@.len(),
        lookup_qty(post.deliveries@[pipe]@, item) == crate::sat_add64(
            lookup_qty(mid.deliveries@[pipe]@, item),
            chunk as int,
        ),
        forall|probe: Item| probe != item ==> lookup_qty(
            #[trigger] post.deliveries@[pipe]@,
            probe,
        ) == lookup_qty(mid.deliveries@[pipe]@, probe),
        forall|q: int| 0 <= q < mid.deliveries@.len() && q != pipe
            ==> #[trigger] post.deliveries@[q] == mid.deliveries@[q],
    ensures
        forall|b: int| 0 <= b < base.books@.len() ==> {
            let p0 = #[trigger] post.books@[b];
            let b0 = base.books@[b];
            p0.orders == b0.orders && p0.total == b0.total && p0.reserved_current
                == b0.reserved_current && p0.reserved_current_context
                == b0.reserved_current_context && p0.reserved >= b0.reserved
        },
        forall|q: int, probe: Item|
            0 <= q < base.deliveries@.len() && probe != item ==> #[trigger] lookup_qty(
                post.deliveries@[q]@,
                probe,
            ) == lookup_qty(base.deliveries@[q]@, probe),
        forall|q: int| 0 <= q < base.deliveries@.len() ==> lookup_qty(
            #[trigger] post.deliveries@[q]@,
            item,
        ) >= lookup_qty(base.deliveries@[q]@, item),
{
    assert forall|b: int| 0 <= b < base.books@.len() implies {
        let p0 = #[trigger] post.books@[b];
        let b0 = base.books@[b];
        p0.orders == b0.orders && p0.total == b0.total && p0.reserved_current
            == b0.reserved_current && p0.reserved_current_context == b0.reserved_current_context
            && p0.reserved >= b0.reserved
    } by {
        if b == book {
            let b0 = base.books@[b];
            let p1 = pre.books@[b];
            assert(p1.orders == b0.orders && p1.total == b0.total && p1.reserved_current
                == b0.reserved_current && p1.reserved_current_context
                == b0.reserved_current_context && p1.reserved >= b0.reserved);
            assert(mid.books@[b] == p1.reserve_model(None, milli));
            assert(mid.books@[b].orders == p1.orders);
            assert(mid.books@[b].total == p1.total);
            assert(mid.books@[b].reserved_current == p1.reserved_current);
            assert(mid.books@[b].reserved_current_context == p1.reserved_current_context);
            assert(mid.books@[b].reserved >= p1.reserved);
            assert(post.books@[b] == mid.books@[b]);
        } else {
            assert(mid.books@[b] == pre.books@[b]);
            assert(post.books@[b] == mid.books@[b]);
        }
    }
    assert forall|q: int, probe: Item|
        0 <= q < base.deliveries@.len() && probe != item implies #[trigger] lookup_qty(
        post.deliveries@[q]@,
        probe,
    ) == lookup_qty(base.deliveries@[q]@, probe) by {
        if q == pipe {
            assert(lookup_qty(post.deliveries@[q]@, probe) == lookup_qty(
                mid.deliveries@[q]@,
                probe,
            ));
        } else {
            assert(post.deliveries@[q] == mid.deliveries@[q]);
        }
        assert(lookup_qty(pre.deliveries@[q]@, probe) == lookup_qty(
            base.deliveries@[q]@,
            probe,
        ));
    }
    assert forall|q: int| 0 <= q < base.deliveries@.len() implies lookup_qty(
        #[trigger] post.deliveries@[q]@,
        item,
    ) >= lookup_qty(base.deliveries@[q]@, item) by {
        assert(lookup_qty(pre.deliveries@[q]@, item) >= lookup_qty(
            base.deliveries@[q]@,
            item,
        ));
        crate::ledger::lemma_ledger_nonneg(pre.deliveries@[q]@, item);
        if q == pipe {
            assert(lookup_qty(mid.deliveries@[q]@, item) == lookup_qty(
                pre.deliveries@[q]@,
                item,
            ));
            assert(lookup_qty(post.deliveries@[q]@, item) == crate::sat_add64(
                lookup_qty(mid.deliveries@[q]@, item),
                chunk as int,
            ));
        } else {
            assert(post.deliveries@[q] == mid.deliveries@[q]);
            assert(mid.deliveries@[q] == pre.deliveries@[q]);
        }
    }
}

/// Law: in every well-formed plan state — the committing operations all
/// promise to keep the state well-formed — a line's build counter lies
/// between zero and its parallel cap.
pub proof fn lemma_builds_within_parallel(cfg: PlanCfg, st: PlanState, l: int)
    requires
        st.wf(cfg),
        0 <= l < st.builds@.len(),
    ensures
        0 <= st.builds@[l] <= cfg.lines@[l].parallel,
{
}

/// A cell of the target ledger: totals saturate at the machine word.
pub open spec fn cap_u64(x: int) -> int {
    if x > u64::MAX {
        u64::MAX as int
    } else {
        x
    }
}

/// Saturating one more amount onto a saturated running total keeps it the
/// saturated true total.
pub proof fn lemma_cap_u64_step(s: int, a: int)
    requires
        s >= 0,
        a >= 0,
    ensures
        crate::sat_add64(cap_u64(s), a) == cap_u64(s + a),
{
}

/// How many occurrences of `loc` there are among `hops[0..k)`, counting
/// each route's source.
pub open spec fn hop_src_count_upto(
    routes: Seq<DeliveryRoute>,
    hops: Seq<usize>,
    k: int,
    loc: int,
) -> int
    decreases k,
{
    if k <= 0 {
        0
    } else {
        hop_src_count_upto(routes, hops, k - 1, loc) + if routes[hops[k - 1] as int].src_location
            == loc {
            1int
        } else {
            0int
        }
    }
}

/// How many stops of pipe `p` lie at `loc`: each route's source counts,
/// and the final destination counts once more (a self-looping pipe can
/// pass a location more than once).
pub open spec fn pipe_stop_count(
    routes: Seq<DeliveryRoute>,
    pipes: Seq<DeliveryPipe>,
    p: int,
    loc: int,
) -> int {
    let hops = pipes[p].routes@;
    hop_src_count_upto(routes, hops, hops.len() as int, loc) + if routes[hops[hops.len()
        - 1] as int].dst_location == loc {
        1int
    } else {
        0int
    }
}

/// Whether any market source of the material has a route landing at `loc`.
pub open spec fn material_reaches(
    routes: Seq<DeliveryRoute>,
    pipes: Seq<DeliveryPipe>,
    srcs: Seq<MarketSrc>,
    loc: int,
) -> bool {
    exists|k: int, h: int|
        0 <= k < srcs.len() && 0 <= h < pipes[srcs[k].pipe as int].routes@.len() && routes[pipes[
            srcs[k].pipe as int].routes@[h] as int].dst_location == loc
}

/// What materials `[0..m)` of line `l` demand of `item` at `loc`: a
/// sub-line-provided material lands its demand at every stop of the
/// provider's export pipe, a market-provided one lands it once at each
/// location its market pipes reach.
pub open spec fn mats_target_upto(
    lines: Seq<ProductionLine>,
    routes: Seq<DeliveryRoute>,
    pipes: Seq<DeliveryPipe>,
    l: int,
    m: int,
    loc: int,
    item: Item,
) -> int
    decreases m,
{
    if m <= 0 {
        0
    } else {
        let line = lines[l];
        let mat = line.materials@[m - 1];
        let own: int = if mat.item == item {
            let demand = crate::sat_mul64(mat.quantity as int, line.parallel as int);
            match mat.source_line {
                Some(sub) => if 0 <= sub < lines.len() {
                    demand * pipe_stop_count(
                        routes,
                        pipes,
                        lines[sub as int].export_pipe as int,
                        loc,
                    )
                } else {
                    0
                },
                None => if material_reaches(routes, pipes, mat.market_srcs@, loc) {
                    demand
                } else {
                    0
                },
            }
        } else {
            0
        };
        mats_target_upto(lines, routes, pipes, l, m - 1, loc, item) + own
    }
}

/// What line `l` demands of `item` at `loc`: a product line wants its
/// whole parallel output present at every stop of its export pipe, and
/// every line wants its parallel bill of materials where they arrive.
pub open spec fn line_target(
    lines: Seq<ProductionLine>,
    routes: Seq<DeliveryRoute>,
    pipes: Seq<DeliveryPipe>,
    l: int,
    loc: int,
    item: Item,
) -> int {
    let line = lines[l];
    let product_part: int = if line.export_kind == ProductionLineExportKind::Product && item
        == line.product {
        crate::sat_mul64(line.portion as int, line.parallel as int) * pipe_stop_count(
            routes,
            pipes,
            line.export_pipe as int,
            loc,
        )
    } else {
        0
    };
    product_part + mats_target_upto(
        lines,
        routes,
        pipes,
        l,
        line.materials@.len() as int,
        loc,
        item,
    )
}

/// What lines `[0..l)` together demand of `item` at `loc`.
pub open spec fn target_upto(
    lines: Seq<ProductionLine>,
    routes: Seq<DeliveryRoute>,
    pipes: Seq<DeliveryPipe>,
    l: int,
    loc: int,
    item: Item,
) -> int
    decreases l,
{
    if l <= 0 {
        0
    } else {
        target_upto(lines, routes, pipes, l - 1, loc, item) + line_target(
            lines,
            routes,
            pipes,
            l - 1,
            loc,
            item,
        )
    }
}

pub proof fn lemma_hop_src_count_nonneg(
    routes: Seq<DeliveryRoute>,
    hops: Seq<usize>,
    k: int,
    loc: int,
)
    ensures
        hop_src_count_upto(routes, hops, k, loc) >= 0,
    decreases k,
{
    if k <= 0 {
    } else {
        lemma_hop_src_count_nonneg(routes, hops, k - 1, loc);
    }
}

pub proof fn lemma_pipe_stop_count_nonneg(
    routes: Seq<DeliveryRoute>,
    pipes: Seq<DeliveryPipe>,
    p: int,
    loc: int,
)
    ensures
        pipe_stop_count(routes, pipes, p, loc) >= 0,
{
    lemma_hop_src_count_nonneg(routes, pipes[p].routes@, pipes[p].routes@.len() as int, loc);
}

pub proof fn lemma_mats_target_nonneg(
    lines: Seq<ProductionLine>,
    routes: Seq<DeliveryRoute>,
    pipes: Seq<DeliveryPipe>,
    l: int,
    m: int,
    loc: int,
    item: Item,
)
    ensures
        mats_target_upto(lines, routes, pipes, l, m, loc, item) >= 0,
    decreases m,
{
    if m <= 0 {
    } else {
        lemma_mats_target_nonneg(lines, routes, pipes, l, m - 1, loc, item);
        let line = lines[l];
        let mat = line.materials@[m - 1];
        if mat.item == item {
            let demand = crate::sat_mul64(mat.quantity as int, line.parallel as int);
            assert(demand >= 0) by (nonlinear_arith)
                requires
                    demand == crate::sat_mul64(mat.quantity as int, line.parallel as int),
                    mat.quantity as int >= 0,
                    line.parallel as int >= 0,
            ;
            match mat.source_line {
                Some(sub) => {
                    if 0 <= sub < lines.len() {
                        let c = pipe_stop_count(
                            routes,
                            pipes,
                            lines[sub as int].export_pipe as int,
                            loc,
                        );
                        lemma_pipe_stop_count_nonneg(
                            routes,
                            pipes,
                            lines[sub as int].export_pipe as int,
                            loc,
                        );
                        assert(demand * c >= 0) by (nonlinear_arith)
                            requires
                                demand >= 0,
                                c >= 0,
                        ;
                    }
                },
                None => {},
            }
        }
    }
}

pub proof fn lemma_line_target_nonneg(
    lines: Seq<ProductionLine>,
    routes: Seq<DeliveryRoute>,
    pipes: Seq<DeliveryPipe>,
    l: int,
    loc: int,
    item: Item,
)
    ensures
        line_target(lines, routes, pipes, l, loc, item) >= 0,
{
    let line = lines[l];
    lemma_mats_target_nonneg(
        lines,
        routes,
        pipes,
        l,
        line.materials@.len() as int,
        loc,
        item,
    );
    if line.export_kind == ProductionLineExportKind::Product && item == line.product {
        let nb = crate::sat_mul64(line.portion as int, line.parallel as int);
        let c = pipe_stop_count(routes, pipes, line.export_pipe as int, loc);
        lemma_pipe_stop_count_nonneg(routes, pipes, line.export_pipe as int, loc);
        assert(nb * c >= 0) by (nonlinear_arith)
            requires
                nb >= 0,
                c >= 0,
        ;
    }
}

pub proof fn lemma_target_upto_nonneg(
    lines: Seq<ProductionLine>,
    routes: Seq<DeliveryRoute>,
    pipes: Seq<DeliveryPipe>,
    l: int,
    loc: int,
    item: Item,
)
    ensures
        target_upto(lines, routes, pipes, l, loc, item) >= 0,
    decreases l,
{
    if l <= 0 {
    } else {
        lemma_target_upto_nonneg(lines, routes, pipes, l - 1, loc, item);
        lemma_line_target_nonneg(lines, routes, pipes, l - 1, loc, item);
    }
}

pub proof fn lemma_mul_nonneg(a: int, b: int)
    requires
        a >= 0,
        b >= 0,
    ensures
        a * b >= 0,
{
    assert(a * b >= 0) by (nonlinear_arith)
        requires
            a >= 0,
            b >= 0,
    ;
}

pub proof fn lemma_mul_succ(a: int, b: int)
    ensures
        a * (b + 1) == a * b + a,
{
    assert(a * (b + 1) == a * b + a) by (nonlinear_arith);
}

/// The destination of hop `h` of market source `k`.
pub open spec fn src_route_dst(
    routes: Seq<DeliveryRoute>,
    pipes: Seq<DeliveryPipe>,
    srcs: Seq<MarketSrc>,
    k: int,
    h: int,
) -> int {
    routes[pipes[srcs[k].pipe as int].routes@[h] as int].dst_location as int
}

/// Whether `x` occurs in the sequence.
pub open spec fn in_seq(v: Seq<usize>, x: usize) -> bool {
    exists|j: int| 0 <= j < v.len() && v[j] == x
}

/// Pushing an element adds exactly its own membership.
pub proof fn lemma_in_seq_push(v: Seq<usize>, x: usize, y: usize)
    ensures
        in_seq(v.push(x), y) == (in_seq(v, y) || y == x),
{
    if in_seq(v, y) {
        let j = choose|j: int| 0 <= j < v.len() && v[j] == y;
        assert(v.push(x)[j] == y);
    }
    if y == x {
        assert(v.push(x)[v.len() as int] == y);
    }
    if in_seq(v.push(x), y) {
        let j = choose|j: int| 0 <= j < v.push(x).len() && v.push(x)[j] == y;
        if j < v.len() {
            assert(v[j] == y);
        }
    }
}

/// How many of `v[0..s)` equal `loc`.
pub open spec fn count_upto(v: Seq<usize>, s: int, loc: int) -> int
    decreases s,
{
    if s <= 0 {
        0
    } else {
        count_upto(v, s - 1, loc) + if v[s - 1] == loc {
            1int
        } else {
            0int
        }
    }
}

pub proof fn lemma_count_upto_nonneg(v: Seq<usize>, s: int, loc: int)
    ensures
        count_upto(v, s, loc) >= 0,
    decreases s,
{
    if s <= 0 {
    } else {
        lemma_count_upto_nonneg(v, s - 1, loc);
    }
}

/// Committed jobs summed over the lines whose job occupies `pool`.
pub open spec fn builds_by_kind(
    lines: Seq<ProductionLine>,
    builds: Seq<u64>,
    pool: IndustrySlot,
) -> int
    decreases builds.len(),
{
    if builds.len() == 0 {
        0
    } else {
        (if lines.len() > 0 && lines[0].kind.spec_slot_kind() == pool {
            builds[0] as int
        } else {
            0int
        }) + builds_by_kind(lines.skip(1), builds.skip(1), pool)
    }
}

/// Raising one line's counter moves only its own pool's total, by the
/// counter's change.
pub proof fn lemma_builds_by_kind_update(
    lines: Seq<ProductionLine>,
    builds: Seq<u64>,
    i: int,
    v: u64,
    pool: IndustrySlot,
)
    requires
        0 <= i < builds.len(),
        builds.len() == lines.len(),
    ensures
        builds_by_kind(lines, builds.update(i, v), pool) == builds_by_kind(lines, builds, pool)
            + if lines[i].kind.spec_slot_kind() == pool {
            v - builds[i]
        } else {
            0int
        },
    decreases builds.len(),
{
    let t = builds.update(i, v);
    if i == 0 {
        assert(t[0] == v);
        assert(t.skip(1) =~= builds.skip(1));
    } else {
        assert(t[0] == builds[0]);
        assert(t.skip(1) =~= builds.skip(1).update(i - 1, v));
        assert(lines.skip(1)[i - 1] == lines[i]);
        assert(builds.skip(1)[i - 1] == builds[i]);
        lemma_builds_by_kind_update(lines.skip(1), builds.skip(1), i - 1, v, pool);
    }
}

/// Slot accounting between two states: no pool ever grows, and each pool
/// shrinks by at most one slot per job committed of its kind (exactly one
/// slot is taken per commit; a commit against an empty pool takes none).
pub open spec fn slots_accounted(cfg: PlanCfg, pre: PlanState, post: PlanState) -> bool {
    &&& post.slots.manufacturing <= pre.slots.manufacturing
    &&& post.slots.reaction <= pre.slots.reaction
    &&& post.slots.science <= pre.slots.science
    &&& post.slots.manufacturing >= pre.slots.manufacturing - (builds_by_kind(
        cfg.lines@,
        post.builds@,
        IndustrySlot::Manufacturing,
    ) - builds_by_kind(cfg.lines@, pre.builds@, IndustrySlot::Manufacturing))
    &&& post.slots.reaction >= pre.slots.reaction - (builds_by_kind(
        cfg.lines@,
        post.builds@,
        IndustrySlot::Reaction,
    ) - builds_by_kind(cfg.lines@, pre.builds@, IndustrySlot::Reaction))
    &&& post.slots.science >= pre.slots.science - (builds_by_kind(
        cfg.lines@,
        post.builds@,
        IndustrySlot::Science,
    ) - builds_by_kind(cfg.lines@, pre.builds@, IndustrySlot::Science))
}

/// Slot accounting composes across successive commits.
pub proof fn lemma_slots_accounted_trans(cfg: PlanCfg, a: PlanState, b: PlanState, c: PlanState)
    requires
        slots_accounted(cfg, a, b),
        slots_accounted(cfg, b, c),
    ensures
        slots_accounted(cfg, a, c),
{
}

/// Total committed jobs across all lines.
pub open spec fn sum_builds(s: Seq<u64>) -> int
    decreases s.len(),
{
    if s.len() == 0 {
        0
    } else {
        s[0] + sum_builds(s.skip(1))
    }
}

/// Total parallel capacity across all lines.
pub open spec fn sum_parallel(lines: Seq<ProductionLine>) -> int
    decreases lines.len(),
{
    if lines.len() == 0 {
        0
    } else {
        lines[0].parallel + sum_parallel(lines.skip(1))
    }
}

/// Law: committed jobs never exceed the total parallel capacity.
pub proof fn lemma_sum_builds_le(builds: Seq<u64>, lines: Seq<ProductionLine>)
    requires
        builds.len() == lines.len(),
        forall|i: int| 0 <= i < builds.len() ==> (#[trigger] builds[i]) <= lines[i].parallel,
    ensures
        sum_builds(builds) <= sum_parallel(lines),
    decreases builds.len(),
{
    if builds.len() == 0 {
    } else {
        assert forall|i: int| 0 <= i < builds.skip(1).len() implies (#[trigger] builds.skip(
            1,
        )[i]) <= lines.skip(1)[i].parallel by {
            assert(builds.skip(1)[i] == builds[i + 1]);
            assert(lines.skip(1)[i] == lines[i + 1]);
        }
        lemma_sum_builds_le(builds.skip(1), lines.skip(1));
    }
}

pub proof fn lemma_sum_builds_mono(b1: Seq<u64>, b2: Seq<u64>)
    requires
        b1.len() == b2.len(),
        forall|i: int| 0 <= i < b1.len() ==> (#[trigger] b1[i]) <= b2[i],
    ensures
        sum_builds(b1) <= sum_builds(b2),
    decreases b1.len(),
{
    if b1.len() == 0 {
    } else {
        assert forall|i: int| 0 <= i < b1.skip(1).len() implies (#[trigger] b1.skip(1)[i])
            <= b2.skip(1)[i] by {
            assert(b1.skip(1)[i] == b1[i + 1]);
            assert(b2.skip(1)[i] == b2[i + 1]);
        }
        lemma_sum_builds_mono(b1.skip(1), b2.skip(1));
    }
}

pub proof fn lemma_sum_builds_strict(b1: Seq<u64>, b2: Seq<u64>, k: int)
    requires
        b1.len() == b2.len(),
        forall|i: int| 0 <= i < b1.len() ==> (#[trigger] b1[i]) <= b2[i],
        0 <= k < b1.len(),
        b1[k] < b2[k],
    ensures
        sum_builds(b1) < sum_builds(b2),
    decreases b1.len(),
{
    assert forall|i: int| 0 <= i < b1.skip(1).len() implies (#[trigger] b1.skip(1)[i])
        <= b2.skip(1)[i] by {
        assert(b1.skip(1)[i] == b1[i + 1]);
        assert(b2.skip(1)[i] == b2[i + 1]);
    }
    if k == 0 {
        lemma_sum_builds_mono(b1.skip(1), b2.skip(1));
    } else {
        assert(b1.skip(1)[k - 1] == b1[k]);
        assert(b2.skip(1)[k - 1] == b2[k]);
        lemma_sum_builds_strict(b1.skip(1), b2.skip(1), k - 1);
    }
}

/// The whole horizon bill: material quantities summed.
pub open spec fn bill_total(mats: Seq<Material>) -> int
    decreases mats.len(),
{
    if mats.len() == 0 {
        0
    } else {
        mats[0].quantity + bill_total(mats.skip(1))
    }
}

pub proof fn lemma_bill_total_nonneg(mats: Seq<Material>)
    ensures
        bill_total(mats) >= 0,
    decreases mats.len(),
{
    if mats.len() == 0 {
    } else {
        lemma_bill_total_nonneg(mats.skip(1));
    }
}

proof fn lemma_bill_total_push(mats: Seq<Material>, m: Material)
    ensures
        bill_total(mats.push(m)) == bill_total(mats) + m.quantity,
    decreases mats.len(),
{
    let t = mats.push(m);
    if mats.len() == 0 {
        assert(t[0] == m);
        assert(t.skip(1) =~= Seq::<Material>::empty());
        assert(bill_total(Seq::<Material>::empty()) == 0);
    } else {
        assert(t[0] == mats[0]);
        assert(t.skip(1) =~= mats.skip(1).push(m));
        lemma_bill_total_push(mats.skip(1), m);
    }
}

/// One more material extends the prefix bill by its quantity.
proof fn lemma_bill_total_take_step(mats: Seq<Material>, k: int)
    requires
        0 <= k < mats.len(),
    ensures
        bill_total(mats.take(k + 1)) == bill_total(mats.take(k)) + mats[k].quantity,
{
    assert(mats.take(k + 1) =~= mats.take(k).push(mats[k]));
    lemma_bill_total_push(mats.take(k), mats[k]);
}

/// A prefix of the bill never exceeds the whole bill.
proof fn lemma_bill_total_take_le(mats: Seq<Material>, k: int)
    requires
        0 <= k <= mats.len(),
    ensures
        bill_total(mats.take(k)) <= bill_total(mats),
    decreases mats.len() - k,
{
    if k == mats.len() {
        assert(mats.take(k) =~= mats);
    } else {
        lemma_bill_total_take_step(mats, k);
        lemma_bill_total_take_le(mats, k + 1);
    }
}

/// A plain commit: every material of the line is market-provided, each
/// item appears once in the bill, none of them is the line's own product,
/// and no counter the commit touches can saturate — the bill (in
/// thousandths) fits the word, every book and every pipe has room for
/// what lands on it, the export pipe included.
pub open spec fn plain_commit(cfg: PlanCfg, st: PlanState, line: int) -> bool {
    let l = cfg.lines@[line];
    let mats = l.materials@;
    &&& forall|i: int| 0 <= i < mats.len() ==> (#[trigger] mats[i]).source_line is None
    &&& forall|i: int, j: int| 0 <= i < j < mats.len() ==> mats[i].item != mats[j].item
    &&& forall|i: int| 0 <= i < mats.len() ==> (#[trigger] mats[i]).item != l.product
    &&& bill_total(mats) * QTY_DENOM <= u64::MAX
    &&& forall|b: int| 0 <= b < st.books@.len() ==> (#[trigger] st.books@[b]).reserved
        + bill_total(mats) * QTY_DENOM <= u64::MAX
    &&& forall|i: int, p: int|
        0 <= i < mats.len() && 0 <= p < st.deliveries@.len() ==> #[trigger] lookup_qty(
            st.deliveries@[p]@,
            mats[i].item,
        ) + mats[i].quantity <= u64::MAX
    &&& (l.export_kind == ProductionLineExportKind::Product && l.export_pipe
        < st.deliveries@.len() ==> lookup_qty(st.deliveries@[l.export_pipe as int]@, l.product)
        + l.portion <= u64::MAX)
}

/// Commits one build of `line`: books one slot, raises the build counter,
/// recursively commits providing lines that still serve unmet demand (and
/// have parallel capacity left, which keeps every counter within its
/// cap), permanently reserves market materials with their deliveries, and
/// exports the product of a product line onto its pipe.
pub fn build(cfg: &PlanCfg, st: &mut PlanState, line: usize)
    requires
        cfg.wf(),
        old(st).wf(*cfg),
        line < cfg.lines@.len(),
        old(st).builds@[line as int] < cfg.lines@[line as int].parallel,
    ensures
        final(st).wf(*cfg),
        final(st).builds@.len() == old(st).builds@.len(),
        final(st).builds@[line as int] == old(st).builds@[line as int] + 1,
        forall|l: int| 0 <= l < old(st).builds@.len() ==> (#[trigger] final(st).builds@[l]) >= old(
            st,
        ).builds@[l],
        forall|l: int|
            0 <= l < old(st).builds@.len() && l != line && cfg.lines@[l].rank >= cfg.lines@[
                line as int].rank ==> (#[trigger] final(st).builds@[l]) == old(st).builds@[l],
        forall|b: int| 0 <= b < old(st).books@.len() ==> {
            let post = #[trigger] final(st).books@[b];
            let pre = old(st).books@[b];
            post.orders == pre.orders && post.total == pre.total && post.reserved_current
                == pre.reserved_current && post.reserved_current_context
                == pre.reserved_current_context && post.reserved >= pre.reserved
        },
        final(st).consumed == old(st).consumed,
        final(st).slots.manufacturing <= old(st).slots.manufacturing,
        final(st).slots.reaction <= old(st).slots.reaction,
        final(st).slots.science <= old(st).slots.science,
        slots_accounted(*cfg, *old(st), *final(st)),
        final(st).deliveries@.len() == old(st).deliveries@.len(),
        forall|p: int, it: Item| 0 <= p < old(st).deliveries@.len() ==> #[trigger] lookup_qty(
            final(st).deliveries@[p]@,
            it,
        ) >= lookup_qty(old(st).deliveries@[p]@, it),
        plain_commit(*cfg, *old(st), line as int) ==> {
            let l = cfg.lines@[line as int];
            let mats = l.materials@;
            &&& forall|i: int| 0 <= i < mats.len() ==> #[trigger] sum_item_deliveries(
                final(st).deliveries@,
                mats[i].item,
            ) == sum_item_deliveries(old(st).deliveries@, mats[i].item) + mats[i].quantity
            &&& sum_reserved(final(st).books@) == sum_reserved(old(st).books@) + bill_total(mats)
                * (QTY_DENOM as int)
            &&& (l.export_kind == ProductionLineExportKind::Product ==> lookup_qty(
                final(st).deliveries@[l.export_pipe as int]@,
                l.product,
            ) == lookup_qty(old(st).deliveries@[l.export_pipe as int]@, l.product) + l.portion)
            &&& forall|p: int, it: Item|
                0 <= p < old(st).deliveries@.len() && it != l.product && (forall|ii: int|
                    0 <= ii < mats.len() ==> (#[trigger] mats[ii]).item != it)
                    ==> #[trigger] lookup_qty(final(st).deliveries@[p]@, it) == lookup_qty(
                    old(st).deliveries@[p]@,
                    it,
                )
            &&& forall|l2: int|
                0 <= l2 < old(st).builds@.len() && l2 != line
                    ==> (#[trigger] final(st).builds@[l2]) == old(st).builds@[l2]
            &&& final(st).slots.manufacturing == if l.kind.spec_slot_kind()
                == IndustrySlot::Manufacturing && old(st).slots.manufacturing > 0 {
                old(st).slots.manufacturing - 1
            } else {
                old(st).slots.manufacturing as int
            }
            &&& final(st).slots.reaction == if l.kind.spec_slot_kind() == IndustrySlot::Reaction
                && old(st).slots.reaction > 0 {
                old(st).slots.reaction - 1
            } else {
                old(st).slots.reaction as int
            }
            &&& final(st).slots.science == if l.kind.spec_slot_kind() == IndustrySlot::Science
                && old(st).slots.science > 0 {
                old(st).slots.science - 1
            } else {
                old(st).slots.science as int
            }
        },
    decreases cfg.lines@[line as int].rank,
{
    proof {
        assert(cfg.line_wf(cfg.lines@[line as int]));
    }
    let l = &cfg.lines[line];

    // book the slot and count the job
    let used = st.slots.use_slot(l.kind.slot_kind());
    let ghost slots_after = st.slots;
    let current: u64 = st.builds[line];
    st.builds.set(line, current + 1);
    proof {
        lemma_builds_by_kind_update(
            cfg.lines@,
            old(st).builds@,
            line as int,
            (current + 1) as u64,
            IndustrySlot::Manufacturing,
        );
        lemma_builds_by_kind_update(
            cfg.lines@,
            old(st).builds@,
            line as int,
            (current + 1) as u64,
            IndustrySlot::Reaction,
        );
        lemma_builds_by_kind_update(
            cfg.lines@,
            old(st).builds@,
            line as int,
            (current + 1) as u64,
            IndustrySlot::Science,
        );
        assert(slots_accounted(*cfg, *old(st), *st));
        if plain_commit(*cfg, *old(st), line as int) {
            let mats = cfg.lines@[line as int].materials@;
            assert(mats.take(0) =~= Seq::<Material>::empty());
        }
    }

    // provide each material
    let mut i: usize = 0;
    while i < l.materials.len()
        invariant
            cfg.wf(),
            st.wf(*cfg),
            old(st).wf(*cfg),
            line < cfg.lines@.len(),
            l == &cfg.lines@[line as int],
            0 <= i <= l.materials@.len(),
            st.builds@.len() == old(st).builds@.len(),
            st.builds@[line as int] == old(st).builds@[line as int] + 1,
            forall|ll: int| 0 <= ll < old(st).builds@.len() ==> (#[trigger] st.builds@[ll])
                >= old(st).builds@[ll],
            forall|ll: int|
                0 <= ll < old(st).builds@.len() && ll != line && cfg.lines@[ll].rank
                    >= cfg.lines@[line as int].rank ==> (#[trigger] st.builds@[ll]) == old(
                    st,
                ).builds@[ll],
            forall|b: int| 0 <= b < old(st).books@.len() ==> {
                let post = #[trigger] st.books@[b];
                let pre = old(st).books@[b];
                post.orders == pre.orders && post.total == pre.total && post.reserved_current
                    == pre.reserved_current && post.reserved_current_context
                    == pre.reserved_current_context && post.reserved >= pre.reserved
            },
            st.consumed == old(st).consumed,
            st.slots.manufacturing <= old(st).slots.manufacturing,
            st.slots.reaction <= old(st).slots.reaction,
            st.slots.science <= old(st).slots.science,
            slots_accounted(*cfg, *old(st), *st),
            st.deliveries@.len() == old(st).deliveries@.len(),
            forall|p: int, it: Item| 0 <= p < old(st).deliveries@.len()
                ==> #[trigger] lookup_qty(st.deliveries@[p]@, it) >= lookup_qty(
                    old(st).deliveries@[p]@,
                    it,
                ),
            plain_commit(*cfg, *old(st), line as int) ==> {
                let mats = cfg.lines@[line as int].materials@;
                &&& forall|ii: int| 0 <= ii < mats.len() ==> #[trigger] sum_item_deliveries(
                    st.deliveries@,
                    mats[ii].item,
                ) == sum_item_deliveries(old(st).deliveries@, mats[ii].item) + if ii < i as int {
                    mats[ii].quantity as int
                } else {
                    0
                }
                &&& forall|ii: int, p: int|
                    i as int <= ii < mats.len() && 0 <= p < old(st).deliveries@.len()
                        ==> #[trigger] lookup_qty(st.deliveries@[p]@, mats[ii].item)
                        == lookup_qty(old(st).deliveries@[p]@, mats[ii].item)
                &&& forall|p: int| 0 <= p < old(st).deliveries@.len() ==> #[trigger] lookup_qty(
                    st.deliveries@[p]@,
                    cfg.lines@[line as int].product,
                ) == lookup_qty(old(st).deliveries@[p]@, cfg.lines@[line as int].product)
                &&& forall|p: int, it: Item|
                    0 <= p < old(st).deliveries@.len() && (forall|ii: int|
                        0 <= ii < mats.len() ==> (#[trigger] mats[ii]).item != it)
                        ==> #[trigger] lookup_qty(st.deliveries@[p]@, it) == lookup_qty(
                        old(st).deliveries@[p]@,
                        it,
                    )
                &&& sum_reserved(st.books@) == sum_reserved(old(st).books@) + bill_total(
                    mats.take(i as int),
                ) * (QTY_DENOM as int)
                &&& forall|b: int| 0 <= b < old(st).books@.len() ==> (
                #[trigger] st.books@[b]).reserved <= old(st).books@[b].reserved + bill_total(
                    mats.take(i as int),
                ) * (QTY_DENOM as int)
                &&& forall|l2: int|
                    0 <= l2 < old(st).builds@.len() && l2 != line ==> #[trigger] st.builds@[l2]
                        == old(st).builds@[l2]
                &&& st.slots == slots_after
            },
        decreases l.materials@.len() - i,
    {
        proof {
            assert(cfg.material_wf(
                cfg.lines@[line as int].materials@[i as int],
                cfg.lines@[line as int].rank,
            ));
        }
        let mat = &l.materials[i];
        match mat.source_line {
            Some(sub) => {
                proof {
                    // a plain commit has no providing lines at all
                    if plain_commit(*cfg, *old(st), line as int) {
                        assert(cfg.lines@[line as int].materials@[
                            i as int].source_line is None);
                    }
                }
                // the providing line runs only while its destination still
                // wants more; its parallel cap is the hard ceiling on the
                // recursive commit, but the material still moves
                if should_build_and_deliver(cfg, st, sub) {
                    if st.builds[sub] < cfg.lines[sub].parallel {
                        let ghost before_sub = *st;
                        build(cfg, st, sub);
                        proof {
                            lemma_slots_accounted_trans(*cfg, *old(st), before_sub, *st);
                        }
                    }
                    let ghost mid = *st;
                    proof {
                        assert(cfg.line_wf(cfg.lines@[sub as int]));
                    }
                    deliver(st, cfg.lines[sub].export_pipe, mat.item, mat.quantity);
                    proof {
                        lemma_deliveries_monotone_step(
                            mid,
                            *st,
                            cfg.lines@[sub as int].export_pipe as int,
                            mat.item,
                            mat.quantity,
                        );
                    }
                }
            },
            None => {
                let ghost pre_call = *st;
                proof {
                    if plain_commit(*cfg, *old(st), line as int) {
                        let mats = cfg.lines@[line as int].materials@;
                        let q = mats[i as int].quantity as int;
                        lemma_bill_total_nonneg(mats.take(i as int));
                        lemma_bill_total_take_step(mats, i as int);
                        lemma_bill_total_take_le(mats, i as int + 1);
                        assert(bill_total(mats.take(i as int)) + q <= bill_total(mats));
                        assert(q * QTY_DENOM <= bill_total(mats) * QTY_DENOM);
                        assert forall|b: int| 0 <= b < pre_call.books@.len() implies (
                        #[trigger] pre_call.books@[b]).reserved + q * QTY_DENOM
                            <= u64::MAX by {
                            assert(pre_call.books@[b].reserved <= old(st).books@[b].reserved
                                + bill_total(mats.take(i as int)) * (QTY_DENOM as int));
                        }
                        assert forall|p: int| 0 <= p < pre_call.deliveries@.len()
                            implies lookup_qty(
                            (#[trigger] pre_call.deliveries@[p])@,
                            mats[i as int].item,
                        ) + mats[i as int].quantity <= u64::MAX by {
                            assert(lookup_qty(pre_call.deliveries@[p]@, mats[i as int].item)
                                == lookup_qty(old(st).deliveries@[p]@, mats[i as int].item));
                        }
                        assert(reserve_headroom(
                            pre_call,
                            mats[i as int].item,
                            mats[i as int].quantity,
                        ));
                    }
                }
                permanent_reserve_from_market_and_deliver(
                    cfg,
                    st,
                    &mat.market_srcs,
                    mat.item,
                    mat.quantity,
                );
                proof {
                    if plain_commit(*cfg, *old(st), line as int) {
                        let mats = cfg.lines@[line as int].materials@;
                        let it = mats[i as int].item;
                        let q = mats[i as int].quantity as int;
                        lemma_bill_total_take_step(mats, i as int);
                        // every other item's totals and per-pipe counts are
                        // untouched by this material
                        assert forall|ii: int|
                            0 <= ii < mats.len() && ii != i as int implies #[trigger]
                        sum_item_deliveries(st.deliveries@, mats[ii].item)
                            == sum_item_deliveries(pre_call.deliveries@, mats[ii].item) by {
                            if ii < i as int {
                                assert(mats[ii].item != mats[i as int].item);
                            } else {
                                assert(mats[i as int].item != mats[ii].item);
                            }
                            lemma_sum_item_deliveries_congruent(
                                st.deliveries@,
                                pre_call.deliveries@,
                                mats[ii].item,
                            );
                        }
                        lemma_sum_item_deliveries_congruent(
                            st.deliveries@,
                            pre_call.deliveries@,
                            cfg.lines@[line as int].product,
                        );
                        // no single book grew by more than this material's
                        // thousandths
                        assert forall|b: int| 0 <= b < old(st).books@.len() implies (
                        #[trigger] st.books@[b]).reserved <= old(st).books@[b].reserved
                            + bill_total(mats.take(i as int + 1)) * (QTY_DENOM as int) by {
                            lemma_reserved_delta_bound(
                                pre_call.books@,
                                st.books@,
                                q * QTY_DENOM,
                                b,
                            );
                        }
                    }
                }
            },
        }
        i = i + 1;
    }

    // a product line exports its whole horizon portion
    match l.export_kind {
        ProductionLineExportKind::Product => {
            let ghost mid = *st;
            deliver(st, l.export_pipe, l.product, l.portion);
            proof {
                lemma_deliveries_monotone_step(
                    mid,
                    *st,
                    cfg.lines@[line as int].export_pipe as int,
                    cfg.lines@[line as int].product,
                    cfg.lines@[line as int].portion,
                );
                if plain_commit(*cfg, *old(st), line as int) {
                    let lsp = cfg.lines@[line as int];
                    let mats = lsp.materials@;
                    let pipe = lsp.export_pipe as int;
                    assert(lsp.export_pipe < old(st).deliveries@.len());
                    assert(lookup_qty(mid.deliveries@[pipe]@, lsp.product) == lookup_qty(
                        old(st).deliveries@[pipe]@,
                        lsp.product,
                    ));
                    assert(lookup_qty(old(st).deliveries@[pipe]@, lsp.product) + lsp.portion
                        <= u64::MAX);
                    crate::ledger::lemma_ledger_nonneg(old(st).deliveries@[pipe]@, lsp.product);
                    assert(mats.take(mats.len() as int) =~= mats);
                    assert forall|ii: int| 0 <= ii < mats.len() implies #[trigger]
                    sum_item_deliveries(st.deliveries@, mats[ii].item) == sum_item_deliveries(
                        mid.deliveries@,
                        mats[ii].item,
                    ) by {
                        assert(mats[ii].item != lsp.product);
                        lemma_sum_item_deliveries_congruent(
                            st.deliveries@,
                            mid.deliveries@,
                            mats[ii].item,
                        );
                    }
                }
            }
        },
        ProductionLineExportKind::Intermediate => {
            proof {
                if plain_commit(*cfg, *old(st), line as int) {
                    let mats = cfg.lines@[line as int].materials@;
                    assert(mats.take(mats.len() as int) =~= mats);
                }
            }
        },
    }
}

/// One delivery only grows the pending quantities.
proof fn lemma_deliveries_monotone_step(
    pre: PlanState,
    post: PlanState,
    pipe: int,
    item: Item,
    qty: u64,
)
    requires
        0 <= pipe < pre.deliveries@.len(),
        post.deliveries@.len() == pre.deliveries@.len(),
        lookup_qty(post.deliveries@[pipe]@, item) == crate::sat_add64(
            lookup_qty(pre.deliveries@[pipe]@, item),
            qty as int,
        ),
        forall|probe: Item| probe != item ==> lookup_qty(
            #[trigger] post.deliveries@[pipe]@,
            probe,
        ) == lookup_qty(pre.deliveries@[pipe]@, probe),
        forall|q: int| 0 <= q < pre.deliveries@.len() && q != pipe ==> #[trigger] post.deliveries@[q]
            == pre.deliveries@[q],
    ensures
        forall|q: int, it: Item| 0 <= q < pre.deliveries@.len() ==> #[trigger] lookup_qty(
            post.deliveries@[q]@,
            it,
        ) >= lookup_qty(pre.deliveries@[q]@, it),
{
    assert forall|q: int, it: Item| 0 <= q < pre.deliveries@.len() implies #[trigger] lookup_qty(
        post.deliveries@[q]@,
        it,
    ) >= lookup_qty(pre.deliveries@[q]@, it) by {
        crate::ledger::lemma_ledger_nonneg(pre.deliveries@[q]@, it);
        if q == pipe {
            if it == item {
            } else {
                assert(lookup_qty(post.deliveries@[q]@, it) == lookup_qty(
                    pre.deliveries@[q]@,
                    it,
                ));
            }
        } else {
            assert(post.deliveries@[q] == pre.deliveries@[q]);
        }
    }
}

/// Whether `line` is a product line that may be committed now at a worthy
/// profit: buildable, evaluable, and clearing both the absolute profit
/// floor and the margin floor.
pub open spec fn eligible(cfg: PlanCfg, st: PlanState, l: int) -> bool {
    &&& cfg.lines@[l].export_kind == ProductionLineExportKind::Product
    &&& can_build_model(cfg, st, l)
    &&& match spec_profit_result(cfg, st, l, None) {
        Some(p) => p.spec_profit() > cfg.min_profit && p.spec_margin_at_least(cfg.min_margin),
        None => false,
    }
}

/// Picks the most profitable product line that may be committed now; the
/// first-evaluated line keeps a tie. Law: whatever is picked clears both
/// thresholds — its profit exceeds `min_profit` and its revenue over cost
/// reaches one plus `min_margin` — and nothing is picked only when no
/// line qualifies.
pub fn find_best_product_line(cfg: &PlanCfg, st: &PlanState) -> (r: Option<(usize, Profit)>)
    requires
        cfg.wf(),
        st.wf(*cfg),
    ensures
        match r {
            None => forall|l: int| 0 <= l < cfg.lines@.len() ==> !eligible(*cfg, *st, l),
            Some((l, p)) => {
                &&& l < cfg.lines@.len()
                &&& eligible(*cfg, *st, l as int)
                &&& Some(p) == spec_profit_result(*cfg, *st, l as int, None::<u64>)
                &&& p.spec_profit() > cfg.min_profit
                &&& p.spec_margin_at_least(cfg.min_margin)
                &&& can_build_model(*cfg, *st, l as int)
            },
        },
{
    let mut best: Option<(usize, Profit)> = None;
    let mut best_value: i128 = 0;
    let mut l: usize = 0;
    while l < cfg.lines.len()
        invariant
            cfg.wf(),
            st.wf(*cfg),
            0 <= l <= cfg.lines@.len(),
            best is None ==> forall|j: int| 0 <= j < l ==> !eligible(*cfg, *st, j),
            best matches Some((bl, bp)) ==> {
                &&& bl < cfg.lines@.len()
                &&& eligible(*cfg, *st, bl as int)
                &&& Some(bp) == spec_profit_result(*cfg, *st, bl as int, None::<u64>)
                &&& bp.spec_profit() > cfg.min_profit
                &&& bp.spec_margin_at_least(cfg.min_margin)
                &&& best_value == bp.spec_profit()
            },
        decreases cfg.lines@.len() - l,
    {
        let is_product = match cfg.lines[l].export_kind {
            ProductionLineExportKind::Product => true,
            ProductionLineExportKind::Intermediate => false,
        };
        if is_product && can_build(cfg, st, l) {
            match profit(cfg, st, l, None) {
                Some(p) => {
                    let value: i128 = p.profit();
                    if value > cfg.min_profit && p.margin_at_least(cfg.min_margin) {
                        let replace = match &best {
                            Some(_) => value > best_value,
                            None => true,
                        };
                        if replace {
                            best = Some((l, p));
                            best_value = value;
                        }
                    }
                },
                None => {},
            }
        }
        l = l + 1;
    }
    best
}

/// One pass over the intermediate lines, committing every one that is
/// currently buildable; reports whether anything was committed.
pub fn try_build_intermediates(cfg: &PlanCfg, st: &mut PlanState) -> (changed: bool)
    requires
        cfg.wf(),
        old(st).wf(*cfg),
    ensures
        final(st).wf(*cfg),
        final(st).builds@.len() == old(st).builds@.len(),
        !changed ==> *final(st) == *old(st),
        !changed ==> forall|l: int|
            0 <= l < cfg.lines@.len() && cfg.lines@[l].export_kind
                == ProductionLineExportKind::Intermediate ==> !can_build_model(
                *cfg,
                *final(st),
                l,
            ),
        changed ==> sum_builds(final(st).builds@) > sum_builds(old(st).builds@),
        (forall|l: int|
            0 <= l < cfg.lines@.len() && cfg.lines@[l].export_kind
                == ProductionLineExportKind::Intermediate ==> !can_build_model(
                *cfg,
                *old(st),
                l,
            )) ==> !changed,
        slots_accounted(*cfg, *old(st), *final(st)),
        forall|l: int| 0 <= l < old(st).builds@.len() ==> (#[trigger] final(st).builds@[l])
            >= old(st).builds@[l],
{
    let mut changed = false;
    let mut l: usize = 0;
    while l < cfg.lines.len()
        invariant
            cfg.wf(),
            st.wf(*cfg),
            old(st).wf(*cfg),
            0 <= l <= cfg.lines@.len(),
            st.builds@.len() == old(st).builds@.len(),
            !changed ==> *st == *old(st),
            !changed ==> forall|j: int|
                0 <= j < l && cfg.lines@[j].export_kind
                    == ProductionLineExportKind::Intermediate ==> !can_build_model(
                    *cfg,
                    *st,
                    j,
                ),
            changed ==> sum_builds(st.builds@) > sum_builds(old(st).builds@),
            changed ==> exists|j: int|
                0 <= j < cfg.lines@.len() && cfg.lines@[j].export_kind
                    == ProductionLineExportKind::Intermediate && can_build_model(
                    *cfg,
                    *old(st),
                    j,
                ),
            slots_accounted(*cfg, *old(st), *st),
            forall|j: int| 0 <= j < old(st).builds@.len() ==> (#[trigger] st.builds@[j]) >= old(
                st,
            ).builds@[j],
        decreases cfg.lines@.len() - l,
    {
        let is_intermediate = match cfg.lines[l].export_kind {
            ProductionLineExportKind::Intermediate => true,
            ProductionLineExportKind::Product => false,
        };
        if is_intermediate && can_build(cfg, st, l) {
            let ghost pre = *st;
            build(cfg, st, l);
            proof {
                lemma_sum_builds_strict(pre.builds@, st.builds@, l as int);
                lemma_slots_accounted_trans(*cfg, *old(st), pre, *st);
                if !changed {
                    assert(pre == *old(st));
                    assert(can_build_model(*cfg, *old(st), l as int));
                }
            }
            changed = true;
        }
        l = l + 1;
    }
    changed
}

/// Nothing qualifies for the scheduler in this state: no intermediate
/// line is buildable and no product line clears the thresholds.
pub open spec fn scheduler_noop(cfg: PlanCfg, st: PlanState) -> bool {
    &&& forall|l: int| 0 <= l < cfg.lines@.len() ==> !eligible(cfg, st, l)
    &&& forall|l: int|
        0 <= l < cfg.lines@.len() && cfg.lines@[l].export_kind
            == ProductionLineExportKind::Intermediate ==> !can_build_model(cfg, st, l)
}

/// The greedy outer scheduler: exhaust the intermediate lines, then commit
/// the single most profitable product line that clears both thresholds,
/// and repeat until nothing buildable and worthy remains. A state in which
/// nothing qualifies is handed back untouched.
pub fn build_in_locations(cfg: &PlanCfg, st: &mut PlanState)
    requires
        cfg.wf(),
        old(st).wf(*cfg),
    ensures
        final(st).wf(*cfg),
        forall|l: int| 0 <= l < cfg.lines@.len() ==> !eligible(*cfg, *final(st), l),
        forall|l: int|
            0 <= l < cfg.lines@.len() && cfg.lines@[l].export_kind
                == ProductionLineExportKind::Intermediate ==> !can_build_model(
                *cfg,
                *final(st),
                l,
            ),
        scheduler_noop(*cfg, *old(st)) ==> *final(st) == *old(st),
        slots_accounted(*cfg, *old(st), *final(st)),
        forall|l: int| 0 <= l < old(st).builds@.len() ==> (#[trigger] final(st).builds@[l])
            >= old(st).builds@[l],
{
    loop
        invariant
            cfg.wf(),
            st.wf(*cfg),
            scheduler_noop(*cfg, *old(st)) ==> *st == *old(st),
            slots_accounted(*cfg, *old(st), *st),
            st.builds@.len() == old(st).builds@.len(),
            forall|l: int| 0 <= l < old(st).builds@.len() ==> (#[trigger] st.builds@[l])
                >= old(st).builds@[l],
        ensures
            st.wf(*cfg),
            forall|l: int| 0 <= l < cfg.lines@.len() ==> !eligible(*cfg, *st, l),
            forall|l: int|
                0 <= l < cfg.lines@.len() && cfg.lines@[l].export_kind
                    == ProductionLineExportKind::Intermediate ==> !can_build_model(
                    *cfg,
                    *st,
                    l,
                ),
            scheduler_noop(*cfg, *old(st)) ==> *st == *old(st),
            slots_accounted(*cfg, *old(st), *st),
            forall|l: int| 0 <= l < old(st).builds@.len() ==> (#[trigger] st.builds@[l])
                >= old(st).builds@[l],
        decreases sum_parallel(cfg.lines@) - sum_builds(st.builds@),
    {
        proof {
            lemma_sum_builds_le(st.builds@, cfg.lines@);
        }
        let ghost outer_pre = *st;
        // exhaust the intermediates
        loop
            invariant
                cfg.wf(),
                st.wf(*cfg),
                sum_builds(st.builds@) >= sum_builds(outer_pre.builds@),
                st.builds@.len() == cfg.lines@.len(),
                st.builds@.len() == old(st).builds@.len(),
                scheduler_noop(*cfg, *old(st)) ==> *st == *old(st),
                slots_accounted(*cfg, *old(st), *st),
                forall|l: int| 0 <= l < old(st).builds@.len() ==> (#[trigger] st.builds@[l])
                    >= old(st).builds@[l],
            ensures
                st.wf(*cfg),
                sum_builds(st.builds@) >= sum_builds(outer_pre.builds@),
                forall|l: int|
                    0 <= l < cfg.lines@.len() && cfg.lines@[l].export_kind
                        == ProductionLineExportKind::Intermediate ==> !can_build_model(
                        *cfg,
                        *st,
                        l,
                    ),
                scheduler_noop(*cfg, *old(st)) ==> *st == *old(st),
                slots_accounted(*cfg, *old(st), *st),
                forall|l: int| 0 <= l < old(st).builds@.len() ==> (#[trigger] st.builds@[l])
                    >= old(st).builds@[l],
            decreases sum_parallel(cfg.lines@) - sum_builds(st.builds@),
        {
            proof {
                lemma_sum_builds_le(st.builds@, cfg.lines@);
            }
            let ghost pre = *st;
            let changed = try_build_intermediates(cfg, st);
            proof {
                lemma_slots_accounted_trans(*cfg, *old(st), pre, *st);
            }
            if !changed {
                break ;
            }
            proof {
                lemma_sum_builds_le(st.builds@, cfg.lines@);
            }
        }

        match find_best_product_line(cfg, st) {
            Some((l, p)) => {
                let ghost pre = *st;
                build(cfg, st, l);
                proof {
                    lemma_sum_builds_strict(pre.builds@, st.builds@, l as int);
                    lemma_sum_builds_le(st.builds@, cfg.lines@);
                    lemma_slots_accounted_trans(*cfg, *old(st), pre, *st);
                }
            },
            None => {
                break ;
            },
        }
    }
}

/// Reserves on one book of the state, keeping every other part untouched.
fn book_reserve(st: &mut PlanState, book: usize, context: Option<u64>, volume: u64)
    requires
        book < old(st).books@.len(),
    ensures
        final(st).books@.len() == old(st).books@.len(),
        final(st).books@[book as int] == old(st).books@[book as int].reserve_model(
            context,
            volume,
        ),
        forall|b: int| 0 <= b < old(st).books@.len() && b != book ==> final(st).books@[b] == old(
            st,
        ).books@[b],
        final(st).deliveries == old(st).deliveries,
        final(st).builds == old(st).builds,
        final(st).slots == old(st).slots,
        final(st).consumed == old(st).consumed,
{
    st.books[book].reserve(context, volume);
}

} // verus!
