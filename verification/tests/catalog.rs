use industry_planner::catalog::{
    find_matching_decryptor, kind_multiplier, security_class, DatabaseResponse, Line, Security,
};
use industry_planner::config::{ManufacturingKind, ManufacturingValue};
use industry_planner::item::{Item, Transput};
use industry_planner::me_quantity;
use industry_planner::projection::DbLineTransformed;

fn no_tax() -> ManufacturingValue {
    ManufacturingValue { manufacturing: 0, invention: 0, reaction: 0, copy: 0 }
}

fn bare_response(
    product: Item,
    probability: u64,
    portion: u64,
    duration: u64,
    minerals: Vec<(Item, u64)>,
) -> DatabaseResponse {
    DatabaseResponse {
        product,
        probability,
        portion,
        duration,
        minerals,
        installation_minerals: vec![],
        efficiencies: vec![],
        security: 500,
    }
}

#[test]
fn one_offs_never_shrink() {
    // a per-run quantity of one stays one per run under any multiplier
    assert_eq!(me_quantity(1, 5, 900_000), 5);
    assert_eq!(me_quantity(1, 7, 600_000), 7);
    // larger quantities round up after the multiplier
    assert_eq!(me_quantity(4, 5, 900_000), 18);
    assert_eq!(me_quantity(7, 1, 900_000), 7);
    assert_eq!(me_quantity(10, 1, 900_000), 9);
    // a full multiplier multiplies exactly
    assert_eq!(me_quantity(4, 5, 1_000_000), 20);
}

#[test]
fn security_statuses_fall_into_three_buckets() {
    assert_eq!(security_class(450), Security::High);
    assert_eq!(security_class(1_000), Security::High);
    assert_eq!(security_class(449), Security::Low);
    assert_eq!(security_class(1), Security::Low);
    assert_eq!(security_class(0), Security::Zero);
    assert_eq!(security_class(-900), Security::Zero);
}

#[test]
fn job_kinds_weigh_installation_costs() {
    assert_eq!(kind_multiplier(ManufacturingKind::Manufacturing), 1_000_000);
    assert_eq!(kind_multiplier(ManufacturingKind::Reaction), 1_000_000);
    assert_eq!(kind_multiplier(ManufacturingKind::Invention), 20_000);
    assert_eq!(kind_multiplier(ManufacturingKind::Copy), 20_000);
}

#[test]
fn decryptors_match_on_their_exact_delta() {
    let base = Item::new_blueprint(600, 1, 2, 4);
    let product = Item::new_blueprint(600, 10, 0, 6);
    let (decryptor, p_mult) = find_matching_decryptor(base, product, 34203).unwrap();
    assert_eq!(decryptor, Item::new(34203));
    assert_eq!(p_mult, 600_000);
    // a decryptor whose delta does not fit finds nothing
    assert!(find_matching_decryptor(base, product, 34208).is_none());
    let off_by_one = Item::new_blueprint(600, 9, 0, 6);
    assert!(find_matching_decryptor(base, off_by_one, 34203).is_none());
}

#[test]
fn manufacturing_projection_applies_research_and_fits_runs() {
    // a researched original: ten percent off materials, five runs fit
    let blueprint = Item { type_id: 700, runs: -1, me: 10, te: 0 };
    let product = Item::new(100);
    let rep = bare_response(product, 0, 10, 2_000, vec![(Item::new(200), 4)]);
    let line = Line::from_rep(
        rep,
        0,
        [None, None, None],
        no_tax(),
        &vec![],
        ManufacturingKind::Manufacturing,
        Transput { blueprint, product },
        10_000,
        None,
    )
    .unwrap();
    assert_eq!(line.runs, 5);
    assert_eq!(line.portion, 50);
    assert_eq!(line.duration, 10_000);
    assert_eq!(line.minerals, vec![(Item::new(200), 18)]);
    assert_eq!(line.cost_multiplier, 1_000_000);
}

#[test]
fn a_copy_that_cannot_outlast_the_horizon_is_refused() {
    let blueprint = Item::new_blueprint(700, 5, 0, 0);
    let product = Item::new(100);
    let rep = bare_response(product, 0, 10, 2_000, vec![(Item::new(200), 4)]);
    let r = Line::from_rep(
        rep,
        0,
        [None, None, None],
        no_tax(),
        &vec![],
        ManufacturingKind::Manufacturing,
        Transput { blueprint, product },
        10_000,
        None,
    );
    assert!(r.is_err());
}

#[test]
fn a_copy_with_spare_runs_is_capped_and_consumed() {
    let blueprint = Item::new_blueprint(700, 3, 0, 0);
    let product = Item::new(100);
    let rep = bare_response(product, 0, 10, 2_000, vec![(Item::new(200), 4)]);
    let line = Line::from_rep(
        rep,
        0,
        [None, None, None],
        no_tax(),
        &vec![],
        ManufacturingKind::Manufacturing,
        Transput { blueprint, product },
        10_000,
        None,
    )
    .unwrap();
    assert_eq!(line.runs, 3);
    assert_eq!(line.portion, 30);
    // the copy itself joins the bill of materials
    assert_eq!(line.minerals, vec![(Item::new(200), 12), (blueprint, 1)]);
}

#[test]
fn invention_consumes_decryptors_and_scales_the_portion() {
    let blueprint = Item::new(601);
    let db_product = Item::new_blueprint(600, 1, 2, 4);
    let product = Item::new_blueprint(600, 10, 0, 6);
    let rep = bare_response(db_product, 260_000, 1, 10_000, vec![(Item::new(20410), 2)]);
    let line = Line::from_rep(
        rep,
        0,
        [None, None, None],
        no_tax(),
        &vec![],
        ManufacturingKind::Invention,
        Transput { blueprint, product },
        100_000,
        Some(34203),
    )
    .unwrap();
    assert_eq!(line.runs, 10);
    // one decryptor per horizon run
    assert_eq!(
        line.minerals,
        vec![(Item::new(20410), 20), (Item::new(34203), 10)],
    );
    // effective probability 0.156 floors ten attempts down to one copy
    assert_eq!(line.portion, 1);
    assert_eq!(line.cost_multiplier, 20_000);
}

#[test]
fn an_unmatched_decryptor_is_a_configuration_error() {
    let blueprint = Item::new(601);
    let db_product = Item::new_blueprint(600, 1, 2, 4);
    let product = Item::new_blueprint(600, 9, 0, 6);
    let rep = bare_response(db_product, 260_000, 1, 10_000, vec![(Item::new(20410), 2)]);
    let r = Line::from_rep(
        rep,
        0,
        [None, None, None],
        no_tax(),
        &vec![],
        ManufacturingKind::Invention,
        Transput { blueprint, product },
        100_000,
        Some(34203),
    );
    assert!(r.is_err());
}

#[test]
fn a_copy_job_runs_once_for_one_copy() {
    let blueprint = Item::new(601);
    let product = Item::new_blueprint(600, 3, 0, 0);
    let rep = bare_response(product, 0, 1, 1_000, vec![(Item::new(200), 4)]);
    let line = Line::from_rep(
        rep,
        0,
        [None, None, None],
        no_tax(),
        &vec![],
        ManufacturingKind::Copy,
        Transput { blueprint, product },
        100_000,
        None,
    )
    .unwrap();
    assert_eq!(line.runs, 1);
    assert_eq!(line.portion, 1);
    // materials were still scaled to the capped three runs
    assert_eq!(line.minerals, vec![(Item::new(200), 12)]);
}

#[test]
fn a_long_job_runs_one_sequence_without_padding() {
    let inner = Line {
        installation_minerals: vec![],
        minerals: vec![(Item::new(200), 4)],
        portion: 10,
        duration: 100_000,
        runs: 5,
        cost_multiplier: 1_000_000,
    };
    // twice the duration exceeds the horizon
    let t = DbLineTransformed::new(inner, 150_000, 0);
    assert_eq!(t.num_sequences(), 1);
    assert_eq!(t.extra_duration, 0);
    assert_eq!(t.runs(), 5);
    assert_eq!(t.portion(), 10);
}

#[test]
fn a_day_aligned_sequence_still_rounds_up_a_day() {
    let inner = Line {
        installation_minerals: vec![],
        minerals: vec![(Item::new(200), 3)],
        portion: 2,
        duration: 86_400,
        runs: 1,
        cost_multiplier: 1_000_000,
    };
    // the flexed time is exactly one day, so a sequence books two
    let t = DbLineTransformed::new(inner, 345_600, 0);
    assert_eq!(t.extra_duration, 86_400);
    assert_eq!(t.num_sequences(), 2);
    assert_eq!(t.runs(), 2);
    assert_eq!(t.portion(), 4);
    assert_eq!(t.minerals(), vec![(Item::new(200), 6)]);
}

#[test]
fn short_sequences_pack_the_horizon() {
    let inner = Line {
        installation_minerals: vec![(Item::new(300), 2)],
        minerals: vec![(Item::new(200), 4)],
        portion: 10,
        duration: 3_600,
        runs: 1,
        cost_multiplier: 1_000_000,
    };
    // each sequence rounds up to one day; five fit in five days
    let t = DbLineTransformed::new(inner, 432_000, 0);
    assert_eq!(t.num_sequences(), 5);
    assert_eq!(t.extra_duration, 86_400 - 3_600);
    assert_eq!(t.runs_per_sequence(), 1);
    assert_eq!(t.runs(), 5);
    assert_eq!(t.portion(), 50);
    assert_eq!(t.minerals(), vec![(Item::new(200), 20)]);
    assert_eq!(t.installation_minerals(), vec![(Item::new(300), 10)]);
    assert_eq!(t.cost_multiplier(), 1_000_000);
}
