use industry_planner::catalog::Line;
use industry_planner::config::{
    Config, DeliveryRate, DeliveryRoute, Location, LocationMarket, LocationProduction,
    ManufacturingKind, ManufacturingValue, ProductionLine, ProductionLineExportKind,
};
use industry_planner::item::{Item, Transput};
use industry_planner::market::MarketOrder;
use industry_planner::plan::{build, build_in_locations, profit};
use industry_planner::report::output_locations;
use industry_planner::setup::{new_locations, MarketSnapshot};
use industry_planner::slots::IndustrySlots;

fn zero_tax() -> ManufacturingValue {
    ManufacturingValue { manufacturing: 0, invention: 0, reaction: 0, copy: 0 }
}

fn free_rate() -> DeliveryRate {
    DeliveryRate { m3_rate: 0, collateral_rate: 0 }
}

/// One market location (id 1) and one production location (id 5), joined
/// by a pipe in each direction; one manufacturing line at the plant that
/// sells its product (type 100) at the hub and buys its mineral (type
/// 200) there.
fn single_product_config(min_profit: i128, parallel: u64) -> Config {
    let line = ProductionLine {
        id: 77,
        transput: Transput { blueprint: Item::new(900), product: Item::new(100) },
        kind: ManufacturingKind::Manufacturing,
        export_kind: ProductionLineExportKind::Product,
        export_pipe_id: 10,
        import_src_market_pipe_ids: vec![20],
        import_src_production_line_ids: vec![],
        decryptor: None,
        parallel,
    };
    let hub = Location {
        id: 1,
        name: "hub".to_string(),
        system_id: 10,
        production: None,
        market: Some(LocationMarket { sales_tax: 0, brokers_fee: 0 }),
        routes: vec![(
            5,
            DeliveryRoute { id: 2, service_name: "haul".to_string(), rate: free_rate() },
        )],
        pipes: vec![(20, vec![2]), (10, vec![1])],
    };
    let plant = Location {
        id: 5,
        name: "plant".to_string(),
        system_id: 10,
        production: Some(LocationProduction {
            tax: zero_tax(),
            rigs: [None, None, None],
            structure_type_id: 0,
            production_lines: vec![line],
        }),
        market: None,
        routes: vec![(
            1,
            DeliveryRoute { id: 1, service_name: "haul".to_string(), rate: free_rate() },
        )],
        pipes: vec![(10, vec![1]), (20, vec![2])],
    };
    Config {
        locations: vec![hub, plant],
        skills: vec![],
        slots: IndustrySlots { manufacturing: 1, reaction: 0, science: 0 },
        max_time: 150_000,
        daily_flex_time: 0,
        min_profit,
        min_margin: 0,
    }
}

fn single_product_db_line(mineral_qty: u64) -> Vec<(u32, Line)> {
    vec![(
        77,
        Line {
            installation_minerals: vec![],
            minerals: vec![(Item::new(200), mineral_qty)],
            portion: 50,
            duration: 100_000,
            runs: 5,
            cost_multiplier: 1_000_000,
        },
    )]
}

fn single_product_books(
    mineral_orders: Vec<MarketOrder>,
    mineral_total: u64,
) -> Vec<MarketSnapshot> {
    vec![
        MarketSnapshot { location: 1, type_id: 200, orders: mineral_orders, total: mineral_total },
        MarketSnapshot {
            location: 1,
            type_id: 100,
            orders: vec![MarketOrder { price: 500, volume: 1_000_000 }],
            total: 1_000_000,
        },
    ]
}

#[test]
fn single_product_plan_builds_once() {
    let cfg = single_product_config(0, 1);
    let db_lines = single_product_db_line(18);
    let books = single_product_books(vec![MarketOrder { price: 100, volume: 100_000 }], 100_000);
    let (pcfg, mut st) = new_locations(
        &cfg,
        &db_lines,
        &vec![],
        &vec![],
        &vec![(10, zero_tax())],
        &books,
        &vec![],
    )
    .unwrap();

    // the derived targets: fifty products wanted along the export pipe,
    // eighteen minerals wanted where the market pipe lands
    assert_eq!(pcfg.assets_target[0], vec![(Item::new(100), 50)]);
    assert_eq!(
        pcfg.assets_target[1],
        vec![(Item::new(100), 50), (Item::new(200), 18)],
    );

    // the evaluator prices eighteen minerals at one ISK and fifty
    // products at five ISK
    let p = profit(&pcfg, &st, 0, None).unwrap();
    assert_eq!(p.cost, 1_800);
    assert_eq!(p.revenue, 25_000);

    build_in_locations(&pcfg, &mut st);
    assert_eq!(st.builds[0], 1);
    // eighteen whole minerals reserved permanently at the hub
    assert_eq!(st.books[0].reserved, 18_000);
    assert_eq!(st.books[0].reserved_current, 0);
    // the product book is untouched
    assert_eq!(st.books[1].reserved, 0);
    // reservations stay within every book's total depth
    for book in st.books.iter() {
        assert!(book.reserved + book.reserved_current <= book.total);
    }

    let names = vec![
        (Item::new(100), "widget".to_string()),
        (Item::new(200), "ore".to_string()),
        (Item::new(900), "widget plan".to_string()),
    ];
    let report = output_locations(&pcfg, &mut st, &names);
    assert_eq!(report.cost, 0);
    assert_eq!(report.locations.len(), 2);
    let hub = &report.locations[0];
    assert_eq!(hub.location, "hub");
    let purchases = hub.purchases.as_ref().unwrap();
    assert_eq!(purchases.len(), 1);
    assert_eq!(purchases[0].item, "ore");
    assert_eq!(purchases[0].quantity, 18);
    assert_eq!(purchases[0].price_low, 100);
    assert_eq!(purchases[0].price_high, 100);
    let plant = &report.locations[1];
    let builds = plant.builds.as_ref().unwrap();
    assert_eq!(builds.len(), 1);
    assert_eq!(builds[0].product, "widget");
    assert_eq!(builds[0].runs, 5);
    assert_eq!(builds[0].sequences, 1);
    assert_eq!(builds[0].builds, 1);
    // fifty products ride the export pipe
    let deliveries = plant.deliveries.as_ref().unwrap();
    assert_eq!(deliveries.len(), 1);
    assert_eq!(deliveries[0].items.len(), 1);
    assert_eq!(deliveries[0].items[0].item, "widget");
    assert_eq!(deliveries[0].items[0].quantity, 50);
}

#[test]
fn probes_leave_the_ledger_alone() {
    let cfg = single_product_config(0, 1);
    let db_lines = single_product_db_line(18);
    let books = single_product_books(vec![MarketOrder { price: 100, volume: 100_000 }], 100_000);
    let (pcfg, st) = new_locations(
        &cfg,
        &db_lines,
        &vec![],
        &vec![],
        &vec![(10, zero_tax())],
        &books,
        &vec![],
    )
    .unwrap();

    // three probes in a row: identical records, no reservations anywhere
    let p1 = profit(&pcfg, &st, 0, None).unwrap();
    let p2 = profit(&pcfg, &st, 0, None).unwrap();
    let p3 = profit(&pcfg, &st, 0, None).unwrap();
    assert_eq!(p1, p2);
    assert_eq!(p2, p3);
    for book in st.books.iter() {
        assert_eq!(book.reserved, 0);
        assert_eq!(book.reserved_current, 0);
    }
}

#[test]
fn unworthy_lines_are_never_committed() {
    // the line's profit is 232 ISK; demanding more than that leaves the
    // plan empty
    let cfg = single_product_config(25_000, 1);
    let db_lines = single_product_db_line(18);
    let books = single_product_books(vec![MarketOrder { price: 100, volume: 100_000 }], 100_000);
    let (pcfg, mut st) = new_locations(
        &cfg,
        &db_lines,
        &vec![],
        &vec![],
        &vec![(10, zero_tax())],
        &books,
        &vec![],
    )
    .unwrap();
    build_in_locations(&pcfg, &mut st);
    assert_eq!(st.builds[0], 0);
    assert_eq!(st.books[0].reserved, 0);
}

#[test]
fn stock_on_hand_satisfies_the_target() {
    // fifty products already sit at the hub, so demand is met before
    // anything runs
    let cfg = single_product_config(0, 1);
    let db_lines = single_product_db_line(18);
    let books = single_product_books(vec![MarketOrder { price: 100, volume: 100_000 }], 100_000);
    let assets = vec![(1, vec![(Item::new(100), 50)])];
    let (pcfg, mut st) = new_locations(
        &cfg,
        &db_lines,
        &vec![],
        &vec![],
        &vec![(10, zero_tax())],
        &books,
        &assets,
    )
    .unwrap();
    build_in_locations(&pcfg, &mut st);
    assert_eq!(st.builds[0], 0);
    assert_eq!(st.books[0].reserved, 0);
}

#[test]
fn thin_margins_are_never_committed() {
    // revenue over cost is just under fourteen; demanding a margin of
    // fourteen leaves the plan empty
    let mut cfg = single_product_config(0, 1);
    cfg.min_margin = 14_000_000;
    let db_lines = single_product_db_line(18);
    let books = single_product_books(vec![MarketOrder { price: 100, volume: 100_000 }], 100_000);
    let (pcfg, mut st) = new_locations(
        &cfg,
        &db_lines,
        &vec![],
        &vec![],
        &vec![(10, zero_tax())],
        &books,
        &vec![],
    )
    .unwrap();
    build_in_locations(&pcfg, &mut st);
    assert_eq!(st.builds[0], 0);

    // a margin the line does clear lets it through
    cfg.min_margin = 12_000_000;
    let (pcfg, mut st) = new_locations(
        &cfg,
        &db_lines,
        &vec![],
        &vec![],
        &vec![(10, zero_tax())],
        &books,
        &vec![],
    )
    .unwrap();
    build_in_locations(&pcfg, &mut st);
    assert_eq!(st.builds[0], 1);
}

#[test]
fn market_depth_fallback_reserves_the_shortfall() {
    // the book lists thirty items but reports a depth of fifty; a
    // hundred are needed, so the shortfall lands on the deepest market
    let cfg = single_product_config(0, 1);
    let db_lines = single_product_db_line(100);
    let books = single_product_books(vec![MarketOrder { price: 200, volume: 30_000 }], 50_000);
    let (pcfg, mut st) = new_locations(
        &cfg,
        &db_lines,
        &vec![],
        &vec![],
        &vec![(10, zero_tax())],
        &books,
        &vec![],
    )
    .unwrap();

    // the probe cannot cover the bill, so the line is not eligible
    assert!(profit(&pcfg, &st, 0, None).is_none());
    build_in_locations(&pcfg, &mut st);
    assert_eq!(st.builds[0], 0);

    // committing directly exercises the fallback
    build(&pcfg, &mut st, 0);
    assert_eq!(st.builds[0], 1);
    assert_eq!(st.books[0].reserved, 100_000);
    // the fallback deliberately books past the listed depth: this is the
    // one reservation that may exceed a book's total
    assert!(st.books[0].reserved > st.books[0].total);

    let names = vec![(Item::new(200), "ore".to_string()), (Item::new(100), "w".to_string())];
    let report = output_locations(&pcfg, &mut st, &names);
    let purchases = report.locations[0].purchases.as_ref().unwrap();
    assert_eq!(purchases[0].quantity, 100);
    assert_eq!(purchases[0].price_low, 200);
    assert_eq!(purchases[0].price_high, 200);
}

#[test]
fn fees_taxes_and_installation_enter_the_evaluation() {
    // hauling costs money in both directions, the hub taxes sales, and
    // the job has an installation bill
    let line = ProductionLine {
        id: 77,
        transput: Transput { blueprint: Item::new(900), product: Item::new(100) },
        kind: ManufacturingKind::Manufacturing,
        export_kind: ProductionLineExportKind::Product,
        export_pipe_id: 10,
        import_src_market_pipe_ids: vec![20],
        import_src_production_line_ids: vec![],
        decryptor: None,
        parallel: 1,
    };
    let hub = Location {
        id: 1,
        name: "hub".to_string(),
        system_id: 10,
        production: None,
        market: Some(LocationMarket { sales_tax: 20_000, brokers_fee: 10_000 }),
        routes: vec![(
            5,
            DeliveryRoute {
                id: 2,
                service_name: "haul".to_string(),
                rate: DeliveryRate { m3_rate: 100, collateral_rate: 50_000 },
            },
        )],
        pipes: vec![(20, vec![2]), (10, vec![1])],
    };
    let plant = Location {
        id: 5,
        name: "plant".to_string(),
        system_id: 10,
        production: Some(LocationProduction {
            tax: zero_tax(),
            rigs: [None, None, None],
            structure_type_id: 0,
            production_lines: vec![line],
        }),
        market: None,
        routes: vec![(
            1,
            DeliveryRoute {
                id: 1,
                service_name: "haul".to_string(),
                rate: DeliveryRate { m3_rate: 200, collateral_rate: 100_000 },
            },
        )],
        pipes: vec![(10, vec![1]), (20, vec![2])],
    };
    let cfg = Config {
        locations: vec![hub, plant],
        skills: vec![],
        slots: IndustrySlots { manufacturing: 1, reaction: 0, science: 0 },
        max_time: 150_000,
        daily_flex_time: 0,
        min_profit: 0,
        min_margin: 0,
    };
    let db_lines = vec![(
        77,
        Line {
            installation_minerals: vec![(Item::new(300), 2)],
            minerals: vec![(Item::new(200), 18)],
            portion: 50,
            duration: 100_000,
            runs: 5,
            cost_multiplier: 1_100_000,
        },
    )];
    let books = vec![
        MarketSnapshot {
            location: 1,
            type_id: 200,
            orders: vec![MarketOrder { price: 100, volume: 100_000 }],
            total: 100_000,
        },
        MarketSnapshot {
            location: 1,
            type_id: 100,
            orders: vec![MarketOrder { price: 1_000, volume: 1_000_000 }],
            total: 1_000_000,
        },
    ];
    let volumes = vec![(Item::new(200), 500), (Item::new(100), 2_000)];
    let prices = vec![(300, 1_000)];
    let indices = vec![(
        10,
        ManufacturingValue { manufacturing: 50_000, invention: 0, reaction: 0, copy: 0 },
    )];
    let (pcfg, mut st) =
        new_locations(&cfg, &db_lines, &volumes, &prices, &indices, &books, &vec![]).unwrap();

    // estimated value 2000, index five percent, multiplier 1.1
    assert_eq!(pcfg.lines[0].installation_cost, 110);

    // each mineral lands at 155: its price, half a cubic metre hauled at
    // one ISK, and five percent collateral on the price
    let p = profit(&pcfg, &st, 0, None).unwrap();
    assert_eq!(p.revenue, 50_000);
    // 18 minerals at 155, fees of 26,500, installation of 110
    assert_eq!(p.cost, 2_790 + 26_500 + 110);

    // before anything is built, the hub still wants fifty products
    let names = vec![(Item::new(100), "widget".to_string()), (Item::new(200), "ore".to_string())];
    let early = output_locations(&pcfg, &mut st, &names);
    let wanted = early.locations[0].missing_assets.as_ref().unwrap();
    assert_eq!(wanted.len(), 1);
    assert_eq!(wanted[0].item, "widget");
    assert_eq!(wanted[0].target, 50);
    assert_eq!(wanted[0].current, 0);

    build_in_locations(&pcfg, &mut st);
    assert_eq!(st.builds[0], 1);

    // the grand total: one installation plus volume fees on both pipes
    let report = output_locations(&pcfg, &mut st, &names);
    assert_eq!(report.cost, 110 + 900 + 20_000);
    // the hub's demand is covered by the inbound delivery; the plant
    // still reports its product missing, since everything it makes is
    // already promised down the pipe
    assert!(report.locations[0].missing_assets.is_none());
    let plant_missing = report.locations[1].missing_assets.as_ref().unwrap();
    assert_eq!(plant_missing.len(), 1);
    assert_eq!(plant_missing[0].item, "widget");
    assert_eq!(plant_missing[0].target, 50);
    assert_eq!(plant_missing[0].current, 0);
}

/// An intermediate line at a workshop (id 7) feeds the plant's product
/// line; the product sells at the hub.
#[test]
fn intermediate_line_feeds_the_product_line() {
    let line_a = ProductionLine {
        id: 70,
        transput: Transput { blueprint: Item::new(910), product: Item::new(300) },
        kind: ManufacturingKind::Manufacturing,
        export_kind: ProductionLineExportKind::Intermediate,
        export_pipe_id: 30,
        import_src_market_pipe_ids: vec![21],
        import_src_production_line_ids: vec![],
        decryptor: None,
        parallel: 1,
    };
    let line_b = ProductionLine {
        id: 71,
        transput: Transput { blueprint: Item::new(920), product: Item::new(400) },
        kind: ManufacturingKind::Manufacturing,
        export_kind: ProductionLineExportKind::Product,
        export_pipe_id: 10,
        import_src_market_pipe_ids: vec![],
        import_src_production_line_ids: vec![(300, 70)],
        decryptor: None,
        parallel: 1,
    };
    let hub = Location {
        id: 1,
        name: "hub".to_string(),
        system_id: 10,
        production: None,
        market: Some(LocationMarket { sales_tax: 0, brokers_fee: 0 }),
        routes: vec![
            (7, DeliveryRoute { id: 3, service_name: "haul".to_string(), rate: free_rate() }),
        ],
        pipes: vec![(10, vec![1]), (21, vec![3])],
    };
    let workshop = Location {
        id: 7,
        name: "workshop".to_string(),
        system_id: 10,
        production: Some(LocationProduction {
            tax: zero_tax(),
            rigs: [None, None, None],
            structure_type_id: 0,
            production_lines: vec![line_a],
        }),
        market: None,
        routes: vec![
            (5, DeliveryRoute { id: 4, service_name: "cart".to_string(), rate: free_rate() }),
        ],
        pipes: vec![(30, vec![4]), (21, vec![3])],
    };
    let plant = Location {
        id: 5,
        name: "plant".to_string(),
        system_id: 10,
        production: Some(LocationProduction {
            tax: zero_tax(),
            rigs: [None, None, None],
            structure_type_id: 0,
            production_lines: vec![line_b],
        }),
        market: None,
        routes: vec![
            (1, DeliveryRoute { id: 1, service_name: "haul".to_string(), rate: free_rate() }),
        ],
        pipes: vec![(10, vec![1]), (30, vec![4])],
    };
    let cfg = Config {
        locations: vec![hub, workshop, plant],
        skills: vec![],
        slots: IndustrySlots { manufacturing: 3, reaction: 0, science: 0 },
        max_time: 150_000,
        daily_flex_time: 0,
        min_profit: 0,
        min_margin: 0,
    };
    let db_lines = vec![
        (
            70,
            Line {
                installation_minerals: vec![],
                minerals: vec![(Item::new(210), 5)],
                portion: 20,
                duration: 100_000,
                runs: 1,
                cost_multiplier: 1_000_000,
            },
        ),
        (
            71,
            Line {
                installation_minerals: vec![],
                minerals: vec![(Item::new(300), 20)],
                portion: 10,
                duration: 100_000,
                runs: 1,
                cost_multiplier: 1_000_000,
            },
        ),
    ];
    let books = vec![
        MarketSnapshot {
            location: 1,
            type_id: 210,
            orders: vec![MarketOrder { price: 100, volume: 1_000_000 }],
            total: 1_000_000,
        },
        MarketSnapshot {
            location: 1,
            type_id: 400,
            orders: vec![MarketOrder { price: 100_000, volume: 1_000_000 }],
            total: 1_000_000,
        },
    ];
    let (pcfg, mut st) = new_locations(
        &cfg,
        &db_lines,
        &vec![],
        &vec![],
        &vec![(10, zero_tax())],
        &books,
        &vec![],
    )
    .unwrap();

    // the derived targets: the product along its pipe, the part along the
    // workshop's pipe, the workshop's mineral where its market pipe lands
    assert_eq!(pcfg.assets_target[0], vec![(Item::new(400), 10)]);
    assert_eq!(
        pcfg.assets_target[1],
        vec![(Item::new(210), 5), (Item::new(300), 20)],
    );
    assert_eq!(
        pcfg.assets_target[2],
        vec![(Item::new(400), 10), (Item::new(300), 20)],
    );

    build_in_locations(&pcfg, &mut st);
    // the intermediate ran exactly once, then the product line
    assert_eq!(st.builds[0], 1);
    assert_eq!(st.builds[1], 1);

    // the intermediate's pipe carries twenty units of its product
    let names = vec![(Item::new(300), "part".to_string()), (Item::new(400), "goods".to_string())];
    let report = output_locations(&pcfg, &mut st, &names);
    let workshop_report = &report.locations[1];
    let deliveries = workshop_report.deliveries.as_ref().unwrap();
    assert_eq!(deliveries.len(), 1);
    assert_eq!(deliveries[0].items[0].item, "part");
    assert_eq!(deliveries[0].items[0].quantity, 20);
}
