use industry_planner::market::{MarketOrder, TypeMarketOrders};

fn sample_book() -> TypeMarketOrders {
    TypeMarketOrders::new(
        vec![
            MarketOrder { price: 100, volume: 5_000 },
            MarketOrder { price: 150, volume: 3_000 },
            MarketOrder { price: 200, volume: 10_000 },
        ],
        18_000,
    )
}

#[test]
fn next_available_walks_the_book_in_price_order() {
    let mut book = sample_book();
    let first = book.next_available(None).unwrap();
    assert_eq!(first.price, 100);
    assert_eq!(first.volume, 5_000);

    book.reserve(None, first.volume);
    let second = book.next_available(None).unwrap();
    assert_eq!(second.price, 150);
    assert_eq!(second.volume, 3_000);

    book.reserve(None, second.volume);
    let third = book.next_available(None).unwrap();
    assert_eq!(third.price, 200);
    assert_eq!(third.volume, 10_000);

    // prices never went down
    assert!(first.price <= second.price && second.price <= third.price);

    // reservations at the total depth exhaust the book
    book.reserve(None, third.volume);
    assert!(book.next_available(None).is_none());
}

#[test]
fn partial_reservation_returns_the_crossing_slice() {
    let mut book = sample_book();
    book.reserve(None, 6_000);
    let next = book.next_available(None).unwrap();
    assert_eq!(next.price, 150);
    assert_eq!(next.volume, 2_000);
}

#[test]
fn tentative_reservations_stay_inside_their_context() {
    let mut book = sample_book();
    book.reserve(Some(11), 4_000);
    assert_eq!(book.reserved, 0);
    assert_eq!(book.reserved_current, 4_000);
    assert_eq!(book.reserved_current_context, 11);

    // the same context accumulates
    book.reserve(Some(11), 1_000);
    assert_eq!(book.reserved_current, 5_000);

    // a reader under the same context sees past the reservation
    let next = book.next_available(Some(11)).unwrap();
    assert_eq!(next.price, 150);

    // a different context sees a fresh book, and observing it discards
    // the stale tentative reservation
    let other = book.next_available(Some(12)).unwrap();
    assert_eq!(other.price, 100);
    assert_eq!(other.volume, 5_000);
    assert_eq!(book.reserved_current, 0);
    assert_eq!(book.reserved_current_context, 12);

    // a new context overwrites instead of accumulating
    book.reserve(Some(12), 2_000);
    book.reserve(Some(13), 700);
    assert_eq!(book.reserved_current, 700);
    assert_eq!(book.reserved_current_context, 13);

    // committed and tentative reservations stay within the total depth
    assert!(book.reserved + book.reserved_current <= book.total);
}

#[test]
fn purchases_are_counted_in_whole_items() {
    let mut book = sample_book();
    book.reserve(None, 6_500);
    assert_eq!(book.num_purchased(None), 6);
    book.reserve(Some(9), 2_000);
    assert_eq!(book.num_purchased(Some(9)), 8);
    assert_eq!(book.num_purchased(None), 6);
}

#[test]
fn purchase_stats_span_the_consumed_prefix() {
    let mut book = sample_book();
    book.reserve(None, 6_000);
    let mut cost: u128 = 0;
    let (quantity, stats) = book.num_purchased_with_stats(None, &mut cost);
    assert_eq!(quantity, 6);
    // five thousand thousandths at 100 plus one thousand at 150
    assert_eq!(cost, 500 + 150);
    assert_eq!(stats.price_low, 100);
    assert_eq!(stats.price_high, 150);
}

#[test]
fn empty_reservations_report_nothing() {
    let mut book = sample_book();
    let mut cost: u128 = 7;
    let (quantity, stats) = book.num_purchased_with_stats(None, &mut cost);
    assert_eq!(quantity, 0);
    assert_eq!(cost, 7);
    assert_eq!(stats.price_low, 0);
    assert_eq!(stats.price_high, 0);
}

#[test]
fn min_sell_and_total_volume_read_the_book() {
    let book = sample_book();
    assert_eq!(book.min_sell(), Some(100));
    assert_eq!(book.total_volume(), 18_000);
    let empty = TypeMarketOrders::new(vec![], 0);
    assert_eq!(empty.min_sell(), None);
}

#[test]
fn probe_next_reads_without_touching_the_book() {
    let book = sample_book();
    let slice = book.probe_next(5_500).unwrap();
    assert_eq!(slice.price, 150);
    assert_eq!(slice.volume, 2_500);
    assert_eq!(book.reserved, 0);
    assert_eq!(book.reserved_current, 0);
    // a probe past the total depth sees nothing
    assert!(book.probe_next(18_000).is_none());
}
