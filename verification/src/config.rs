use vstd::prelude::*;

use crate::item::{Item, Transput};
use crate::slots::{IndustrySlot, IndustrySlots};

verus! {

/// The four job kinds a production line can run.
#[derive(Debug, Clone, Copy, PartialEq, Eq, Structural)]
pub enum ManufacturingKind {
    Manufacturing,
    Invention,
    Reaction,
    Copy,
}

impl ManufacturingKind {
    /// Copying and invention occupy science slots.
    pub fn is_science(&self) -> (r: bool)
        ensures
            r == (*self == ManufacturingKind::Invention || *self == ManufacturingKind::Copy),
    {
        match self {
            ManufacturingKind::Invention => true,
            ManufacturingKind::Copy => true,
            ManufacturingKind::Manufacturing => false,
            ManufacturingKind::Reaction => false,
        }
    }

    /// Maps a catalog activity key onto a job kind; the research
    /// activities have no production job kind and map to nothing. Where
    /// this yields a kind, its slot pool agrees with
    /// `IndustrySlot::from_activity_id`.
    pub fn from_activity_id(id: i32) -> (r: Option<ManufacturingKind>)
        ensures
            r == match id {
                1i32 => Some(ManufacturingKind::Manufacturing),
                5i32 => Some(ManufacturingKind::Copy),
                8i32 => Some(ManufacturingKind::Invention),
                9i32 => Some(ManufacturingKind::Reaction),
                11i32 => Some(ManufacturingKind::Reaction),
                _ => None::<ManufacturingKind>,
            },
            r matches Some(kind) ==> IndustrySlot::spec_from_activity_id(id) == Some(
                kind.spec_slot_kind(),
            ),
    {
        match id {
            1 => Some(ManufacturingKind::Manufacturing),
            5 => Some(ManufacturingKind::Copy),
            8 => Some(ManufacturingKind::Invention),
            9 => Some(ManufacturingKind::Reaction),
            11 => Some(ManufacturingKind::Reaction),
            _ => None,
        }
    }

    pub open spec fn spec_slot_kind(self) -> IndustrySlot {
        match self {
            ManufacturingKind::Copy => IndustrySlot::Science,
            ManufacturingKind::Invention => IndustrySlot::Science,
            ManufacturingKind::Reaction => IndustrySlot::Reaction,
            ManufacturingKind::Manufacturing => IndustrySlot::Manufacturing,
        }
    }

    /// The slot pool this job kind occupies.
    pub fn slot_kind(self) -> (r: IndustrySlot)
        ensures
            r == self.spec_slot_kind(),
    {
        match self {
            ManufacturingKind::Copy => IndustrySlot::Science,
            ManufacturingKind::Invention => IndustrySlot::Science,
            ManufacturingKind::Reaction => IndustrySlot::Reaction,
            ManufacturingKind::Manufacturing => IndustrySlot::Manufacturing,
        }
    }
}

/// Whether a line's output is sold (product) or feeds another line
/// (intermediate).
#[derive(Debug, Clone, Copy, PartialEq, Eq, Structural)]
pub enum ProductionLineExportKind {
    Product,
    Intermediate,
}

/// One value per job kind, in parts per million: used for job taxes and
/// for per-system cost indices.
#[derive(Debug, Clone, Copy, PartialEq, Eq, Structural)]
pub struct ManufacturingValue {
    pub manufacturing: u64,
    pub invention: u64,
    pub reaction: u64,
    pub copy: u64,
}

impl ManufacturingValue {
    pub open spec fn spec_kind_value(self, kind: ManufacturingKind) -> u64 {
        match kind {
            ManufacturingKind::Manufacturing => self.manufacturing,
            ManufacturingKind::Invention => self.invention,
            ManufacturingKind::Reaction => self.reaction,
            ManufacturingKind::Copy => self.copy,
        }
    }

    pub fn kind_value(&self, kind: ManufacturingKind) -> (r: u64)
        ensures
            r == self.spec_kind_value(kind),
    {
        match kind {
            ManufacturingKind::Manufacturing => self.manufacturing,
            ManufacturingKind::Invention => self.invention,
            ManufacturingKind::Reaction => self.reaction,
            ManufacturingKind::Copy => self.copy,
        }
    }
}

/// Fees a logistics service charges: `m3_rate` is money per whole cubic
/// metre carried, `collateral_rate` is parts per million of the cargo's
/// value.
#[derive(Debug, Clone, Copy, PartialEq, Eq, Structural)]
pub struct DeliveryRate {
    pub m3_rate: u128,
    pub collateral_rate: u64,
}

impl DeliveryRate {
    pub fn new() -> (r: DeliveryRate)
        ensures
            r.m3_rate == 0 && r.collateral_rate == 0,
    {
        DeliveryRate { m3_rate: 0, collateral_rate: 0 }
    }
}

/// One configured atomic logistics hop, keyed in its location's route map
/// by destination.
#[derive(Debug, Clone)]
pub struct DeliveryRoute {
    pub id: u32,
    pub service_name: String,
    pub rate: DeliveryRate,
}

/// One configured production line.
#[derive(Debug, Clone)]
pub struct ProductionLine {
    pub id: u32,
    pub transput: Transput,
    pub kind: ManufacturingKind,
    pub export_kind: ProductionLineExportKind,
    pub export_pipe_id: u32,
    pub import_src_market_pipe_ids: Vec<u32>,
    /// Materials provided by another line: material type id to line id.
    pub import_src_production_line_ids: Vec<(u32, u32)>,
    pub decryptor: Option<u32>,
    pub parallel: u64,
}

/// Production settings of a location that hosts lines.
#[derive(Debug, Clone)]
pub struct LocationProduction {
    pub tax: ManufacturingValue,
    pub rigs: [Option<u32>; 3],
    pub structure_type_id: u32,
    pub production_lines: Vec<ProductionLine>,
}

/// Market settings of a location that hosts an order book.
#[derive(Debug, Clone, Copy, PartialEq, Eq, Structural)]
pub struct LocationMarket {
    /// Parts per million of sale revenue.
    pub sales_tax: u64,
    /// Parts per million of sale revenue.
    pub brokers_fee: u64,
}

/// One configured location: routes are keyed by destination location id,
/// pipes list route ids in hop order.
#[derive(Debug, Clone)]
pub struct Location {
    pub id: u64,
    pub name: String,
    pub system_id: u32,
    pub production: Option<LocationProduction>,
    pub market: Option<LocationMarket>,
    pub routes: Vec<(u64, DeliveryRoute)>,
    pub pipes: Vec<(u32, Vec<u32>)>,
}

/// The whole user configuration. Times are whole seconds; money is in
/// hundredths of ISK; `min_margin` is parts per million.
#[derive(Debug, Clone)]
pub struct Config {
    pub locations: Vec<Location>,
    pub skills: Vec<(u32, u8)>,
    pub slots: IndustrySlots,
    pub max_time: u64,
    pub daily_flex_time: u64,
    pub min_profit: i128,
    pub min_margin: u64,
}

} // verus!
