use industry_planner::catalog::{from_database_kind, into_database_kind};
use industry_planner::config::{DeliveryRate, ManufacturingKind, ProductionLineExportKind};
use industry_planner::item::{Item, Transput};
use industry_planner::kinds::{Builds, JobKind, MaterialEfficiency, ProductionLineId, SlotCount, TimeEfficiency};
use industry_planner::plan::{installation_cost_for, ProductionLine};
use industry_planner::profit::Profit;
use industry_planner::slots::{IndustrySlot, IndustrySlots};

#[test]
fn slot_counts_reserve_and_fit() {
    let mut slots = SlotCount::new();
    slots.add(JobKind::Manufacturing);
    slots.add(JobKind::Invention);
    slots.add(JobKind::Copying);
    slots.add(JobKind::Reaction);
    assert_eq!(slots.manufacture, 1);
    assert_eq!(slots.science, 2);
    assert_eq!(slots.reaction, 1);
    let need = SlotCount { manufacture: 1, reaction: 1, science: 2 };
    assert!(slots.can_fit(&need));
    slots.reserve(JobKind::Invention);
    assert!(!slots.can_fit(&need));
    assert_eq!(slots.science, 1);
}

#[test]
fn industry_slots_hand_out_one_slot_at_a_time() {
    let mut slots = IndustrySlots { manufacturing: 1, reaction: 0, science: 2 };
    assert!(slots.can_use_slot(IndustrySlot::Manufacturing));
    assert!(!slots.can_use_slot(IndustrySlot::Reaction));
    assert!(slots.available(IndustrySlot::Science));
    assert!(slots.use_slot(IndustrySlot::Manufacturing));
    assert!(!slots.use_slot(IndustrySlot::Manufacturing));
    slots.use_slot_unwrap(IndustrySlot::Science);
    assert_eq!(slots.science, 1);
    let one = IndustrySlots::from_slot(IndustrySlot::Reaction);
    assert_eq!(one.reaction, 1);
    assert_eq!(one.manufacturing, 0);
    let mut sum = IndustrySlots::from_slot(IndustrySlot::Science);
    sum.add(one);
    assert!(sum.can_use_slots(&IndustrySlots { manufacturing: 0, reaction: 1, science: 1 }));
    assert!(!sum.can_use_slots(&IndustrySlots { manufacturing: 1, reaction: 0, science: 0 }));
}

#[test]
fn activity_keys_map_onto_slot_pools() {
    assert_eq!(IndustrySlot::from_activity_id(1), Some(IndustrySlot::Manufacturing));
    assert_eq!(IndustrySlot::from_activity_id(5), Some(IndustrySlot::Science));
    assert_eq!(IndustrySlot::from_activity_id(8), Some(IndustrySlot::Science));
    assert_eq!(IndustrySlot::from_activity_id(11), Some(IndustrySlot::Reaction));
    assert_eq!(IndustrySlot::from_activity_id(2), None);
}

#[test]
fn database_kind_keys_round_trip() {
    for kind in [
        ManufacturingKind::Manufacturing,
        ManufacturingKind::Invention,
        ManufacturingKind::Copy,
        ManufacturingKind::Reaction,
    ] {
        assert_eq!(from_database_kind(into_database_kind(kind)), kind);
    }
    assert!(ManufacturingKind::Invention.is_science());
    assert!(ManufacturingKind::Copy.is_science());
    assert!(!ManufacturingKind::Reaction.is_science());
    assert_eq!(ManufacturingKind::Reaction.slot_kind(), IndustrySlot::Reaction);
}

#[test]
fn blueprint_levels_scale_only_manufacturing() {
    assert_eq!(MaterialEfficiency::ME10.blueprint_me(JobKind::Manufacturing), 900_000);
    assert_eq!(MaterialEfficiency::ME01.blueprint_me(JobKind::Manufacturing), 990_000);
    assert_eq!(MaterialEfficiency::ME10.blueprint_me(JobKind::Reaction), 1_000_000);
    assert_eq!(TimeEfficiency::TE10.blueprint_te(JobKind::Manufacturing), 800_000);
    assert_eq!(TimeEfficiency::TE05.blueprint_te(JobKind::Manufacturing), 900_000);
    assert_eq!(TimeEfficiency::TE10.blueprint_te(JobKind::Invention), 1_000_000);
    assert_eq!(JobKind::Manufacturing.installation_cost_multiplier(), 1_000_000);
    assert_eq!(JobKind::Copying.installation_cost_multiplier(), 20_000);
}

#[test]
fn items_know_their_blueprint_shape() {
    let plain = Item::new(42);
    assert!(!plain.is_blueprint());
    assert!(plain.is_marketable());
    let copy = Item::new_blueprint(42, 5, 2, 4);
    assert!(copy.is_bpc());
    assert!(!copy.is_bpo());
    assert!(copy.is_blueprint());
    assert!(!copy.is_marketable());
    let original = Item::new_blueprint(42, -1, 0, 0);
    assert!(original.is_bpo());
    assert!(original.is_marketable());
    let researched = Item::new_blueprint(42, -1, 10, 20);
    assert!(!researched.is_marketable());
    assert_eq!(copy.into_non_blueprint(), plain);
    assert!(Item::null().is_null());
    assert!(Transput::null().blueprint.is_null());
}

#[test]
fn build_counts_accumulate_per_line() {
    let mut builds = Builds::new();
    let a = ProductionLineId(3);
    let b = ProductionLineId(9);
    assert_eq!(builds.get(a), 0);
    builds.add(a);
    builds.add(a);
    builds.add(b);
    assert_eq!(builds.get(a), 2);
    assert_eq!(builds.get(b), 1);
    assert_eq!(builds.get(ProductionLineId(1)), 0);
}

fn bare_line(installation_cost: u128, portion: u64) -> ProductionLine {
    ProductionLine {
        id: 1,
        location: 0,
        blueprint: Item::new(900),
        product: Item::new(100),
        kind: ManufacturingKind::Manufacturing,
        export_kind: ProductionLineExportKind::Product,
        export_pipe: 0,
        export_rate: DeliveryRate { m3_rate: 0, collateral_rate: 0 },
        export_dst: 0,
        export_book: None,
        materials: vec![],
        installation_cost,
        portion,
        runs: portion,
        runs_per_sequence: 1,
        num_sequences: 1,
        parallel: 1,
        decryptor: None,
        rank: 0,
    }
}

#[test]
fn installation_cost_for_the_whole_portion_is_the_installation_cost() {
    let line = bare_line(7_700, 7);
    assert_eq!(installation_cost_for(&line, 7 * 1_000), 7_700);
    // a fraction of the portion pays its share, rounded down
    assert_eq!(installation_cost_for(&line, 1_000), 1_100);
    assert_eq!(installation_cost_for(&line, 500), 550);
    assert_eq!(installation_cost_for(&line, 3_500), 3_850);
}

#[test]
fn margins_compare_revenue_against_cost_without_division() {
    let p = Profit::new(1_000, 1_500);
    assert_eq!(p.profit(), 500);
    // one and a half times the cost clears a margin of one half
    assert!(p.margin_at_least(500_000));
    assert!(!p.margin_at_least(500_001));
    let loss = Profit::new(2_000, 1_500);
    assert_eq!(loss.profit(), -500);
    assert!(!loss.margin_at_least(0));
}
