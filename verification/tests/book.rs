use orderbook::book::classify;
use orderbook::book::parse_levels;
use orderbook::book::parse_sides;
use orderbook::book::Continuity;
use orderbook::book::Field;
use orderbook::book::OrderBook;
use orderbook::book::ParseError;
use orderbook::book::UpdateOutcome;
use orderbook::decimal::FixedDecimal;
use orderbook::level::PriceLevel;
use orderbook::level::Side;
use orderbook::wire::DepthSnapshot;
use orderbook::wire::DepthUpdate;
use orderbook::wire::RawLevel;

fn raw(price: &str, quantity: &str) -> RawLevel {
    RawLevel { price: price.to_string(), quantity: quantity.to_string() }
}

fn raws(pairs: &[(&str, &str)]) -> Vec<RawLevel> {
    pairs.iter().map(|p| raw(p.0, p.1)).collect()
}

fn dec(text: &str) -> FixedDecimal {
    FixedDecimal::parse(text).unwrap()
}

fn level(price: &str, quantity: &str) -> PriceLevel {
    PriceLevel { price: dec(price), quantity: dec(quantity) }
}

fn levels(pairs: &[(&str, &str)]) -> Vec<PriceLevel> {
    pairs.iter().map(|p| level(p.0, p.1)).collect()
}

fn book(id: u64, bids: &[(&str, &str)], asks: &[(&str, &str)]) -> OrderBook {
    OrderBook::from_snapshot(DepthSnapshot { last_update_id: id, bids: raws(bids), asks: raws(asks) })
        .unwrap()
}

fn update(first: u64, last: u64, bids: &[(&str, &str)], asks: &[(&str, &str)]) -> DepthUpdate {
    DepthUpdate { first_update_id: first, last_update_id: last, bids: raws(bids), asks: raws(asks) }
}

fn shape(book: &OrderBook) -> (u64, Vec<PriceLevel>, Vec<PriceLevel>) {
    (book.sequence_id(), book.bids_descending(), book.asks_ascending())
}

#[test]
fn bootstrap_and_apply() {
    let mut book = book(100, &[("10.0", "5")], &[("10.5", "3")]);
    assert_eq!(book.sequence_id(), 100);
    assert_eq!(book.bids_descending(), levels(&[("10.0", "5")]));
    let update = update(101, 101, &[("10.0", "0")], &[]);
    assert_eq!(book.apply_depth_update(&update), Ok(UpdateOutcome::Applied(101)));
    assert_eq!(book.bids_descending(), vec![]);
    assert_eq!(book.best_bid(), None);
    assert_eq!(book.asks_ascending(), levels(&[("10.5", "3")]));
    assert_eq!(book.sequence_id(), 101);
}

#[test]
fn resync_trigger_leaves_the_book_alone() {
    let mut book = book(200, &[("10.0", "5")], &[("10.5", "3")]);
    let before = shape(&book);
    let update = update(205, 210, &[("10.0", "0"), ("9", "1")], &[("11", "2")]);
    assert_eq!(book.apply_depth_update(&update), Ok(UpdateOutcome::Gap));
    assert_eq!(shape(&book), before);
}

#[test]
fn spread_of_best_prices() {
    let book = book(1, &[("9.5", "1"), ("10.0", "2")], &[("11.0", "1"), ("10.5", "4")]);
    assert_eq!(book.best_bid(), Some(level("10.0", "2")));
    assert_eq!(book.best_ask(), Some(level("10.5", "4")));
    assert_eq!(book.spread(), Some(dec("0.5")));
}

#[test]
fn spread_is_absent_without_asks() {
    let book = book(1, &[("10.0", "2")], &[]);
    assert_eq!(book.best_ask(), None);
    assert_eq!(book.spread(), None);
}

#[test]
fn spread_is_absent_without_bids() {
    let book = book(1, &[], &[("10.0", "2")]);
    assert_eq!(book.best_bid(), None);
    assert_eq!(book.spread(), None);
}

#[test]
fn spread_of_a_crossed_book_is_negative() {
    let book = book(1, &[("10.5", "2")], &[("10.0", "2")]);
    assert_eq!(book.spread(), Some(dec("-0.5")));
}

#[test]
fn spread_is_absent_beyond_the_range() {
    let book = book(
        1,
        &[("-79228162514264337593543950335", "1")],
        &[("79228162514264337593543950335", "1")],
    );
    assert_eq!(book.spread(), None);
}

#[test]
fn bids_fall_and_asks_rise() {
    let prices = [("10.0", "1"), ("9.5", "2"), ("10.25", "3"), ("-1", "4"), ("0.00000001", "5"), ("100", "6"), ("9.75", "7")];
    let book = book(7, &prices, &prices);
    let expected_up = levels(&[("-1", "4"), ("0.00000001", "5"), ("9.5", "2"), ("9.75", "7"), ("10.0", "1"), ("10.25", "3"), ("100", "6")]);
    let mut expected_down = expected_up.clone();
    expected_down.reverse();
    assert_eq!(book.asks_ascending(), expected_up);
    assert_eq!(book.bids_descending(), expected_down);
    let bids = book.bids_descending();
    for i in 1..bids.len() {
        assert!(bids[i - 1].price.sort_key() > bids[i].price.sort_key());
    }
    let asks = book.asks_ascending();
    for i in 1..asks.len() {
        assert!(asks[i - 1].price.sort_key() < asks[i].price.sort_key());
    }
    assert_eq!(book.best_bid(), Some(level("100", "6")));
    assert_eq!(book.best_ask(), Some(level("-1", "4")));
}

#[test]
fn snapshot_drops_zero_quantities() {
    let book = book(5, &[("10", "5"), ("9", "0.000"), ("10", "0")], &[("11", "0")]);
    assert_eq!(book.bids_descending(), levels(&[("10", "5")]));
    assert_eq!(book.asks_ascending(), vec![]);
    assert_eq!(book.sequence_id(), 5);
}

#[test]
fn snapshot_later_entry_sets_the_quantity() {
    let book = book(5, &[("10.0", "5"), ("9", "1"), ("10.00", "7")], &[]);
    assert_eq!(book.bids_descending(), levels(&[("10.0", "7"), ("9", "1")]));
}

#[test]
fn snapshot_with_bad_text_is_rejected() {
    let snapshot = |bids: &[(&str, &str)], asks: &[(&str, &str)]| {
        OrderBook::from_snapshot(DepthSnapshot { last_update_id: 1, bids: raws(bids), asks: raws(asks) })
            .err()
    };
    assert_eq!(
        snapshot(&[("10", "1"), ("x", "1"), ("y", "z")], &[("?", "1")]),
        Some(ParseError { side: Side::Bid, index: 1, field: Field::Price })
    );
    assert_eq!(
        snapshot(&[("10", "1"), ("11", "")], &[]),
        Some(ParseError { side: Side::Bid, index: 1, field: Field::Quantity })
    );
    assert_eq!(
        snapshot(&[("10", "1")], &[("1.2.3", "1")]),
        Some(ParseError { side: Side::Ask, index: 0, field: Field::Price })
    );
    assert_eq!(
        snapshot(&[], &[("1", "1"), ("2", "2"), ("3", "three")]),
        Some(ParseError { side: Side::Ask, index: 2, field: Field::Quantity })
    );
    assert_eq!(snapshot(&[("x", "y")], &[]), Some(ParseError { side: Side::Bid, index: 0, field: Field::Price }));
    assert_eq!(snapshot(&[], &[]), None);
}

#[test]
fn upsert_sets_overwrites_and_removes() {
    let mut book = book(1, &[], &[]);
    book.upsert(Side::Bid, dec("10.0"), dec("5"));
    book.upsert(Side::Ask, dec("10.5"), dec("3"));
    book.upsert(Side::Bid, dec("9"), dec("1"));
    assert_eq!(book.bids_descending(), levels(&[("10.0", "5"), ("9", "1")]));
    assert_eq!(book.asks_ascending(), levels(&[("10.5", "3")]));
    book.upsert(Side::Bid, dec("10.00"), dec("6.5"));
    assert_eq!(book.bids_descending(), levels(&[("10.0", "6.5"), ("9", "1")]));
    book.upsert(Side::Bid, dec("10"), dec("0.00"));
    assert_eq!(book.bids_descending(), levels(&[("9", "1")]));
    book.upsert(Side::Bid, dec("10"), dec("2"));
    assert_eq!(book.bids_descending(), levels(&[("10", "2"), ("9", "1")]));
    assert_eq!(book.asks_ascending(), levels(&[("10.5", "3")]));
    assert_eq!(book.sequence_id(), 1);
}

#[test]
fn zero_quantity_removes_an_existing_price() {
    let mut book = book(10, &[("10.0", "5"), ("9.5", "1")], &[("10.5", "3"), ("11", "2")]);
    let update = update(11, 12, &[("10.00", "0.00000000")], &[("11", "0.00000000")]);
    assert_eq!(book.apply_depth_update(&update), Ok(UpdateOutcome::Applied(12)));
    assert_eq!(shape(&book), (12, levels(&[("9.5", "1")]), levels(&[("10.5", "3")])));
}

#[test]
fn zero_quantity_at_a_missing_price_changes_no_level() {
    let mut book = book(10, &[("10.0", "5")], &[("10.5", "3")]);
    let update = update(11, 11, &[("9.0", "0.00000000")], &[("12", "0.00000000")]);
    assert_eq!(book.apply_depth_update(&update), Ok(UpdateOutcome::Applied(11)));
    assert_eq!(shape(&book), (11, levels(&[("10.0", "5")]), levels(&[("10.5", "3")])));
}

#[test]
fn deltas_are_applied_in_order() {
    let mut book = book(10, &[], &[]);
    let update = update(11, 15, &[("10", "1"), ("10", "0"), ("10", "2"), ("9", "3"), ("9", "0")], &[("11", "0"), ("11", "4")]);
    assert_eq!(book.apply_depth_update(&update), Ok(UpdateOutcome::Applied(15)));
    assert_eq!(shape(&book), (15, levels(&[("10", "2")]), levels(&[("11", "4")])));
}

#[test]
fn stale_update_is_ignored() {
    let mut book = book(100, &[("10.0", "5")], &[("10.5", "3")]);
    let before = shape(&book);
    let stale = update(90, 100, &[("10.0", "0"), ("8", "1")], &[("10.5", "0")]);
    assert_eq!(book.apply_depth_update(&stale), Ok(UpdateOutcome::Stale));
    assert_eq!(shape(&book), before);
    assert_eq!(book.apply_depth_update(&stale), Ok(UpdateOutcome::Stale));
    assert_eq!(shape(&book), before);
    let older = update(1, 2, &[("not a number", "1")], &[]);
    assert_eq!(book.apply_depth_update(&older), Ok(UpdateOutcome::Stale));
    assert_eq!(shape(&book), before);
}

#[test]
fn applied_update_is_stale_the_second_time() {
    let mut book = book(100, &[("10.0", "5")], &[]);
    let next = update(101, 103, &[("10.0", "6")], &[("10.5", "3")]);
    assert_eq!(book.apply_depth_update(&next), Ok(UpdateOutcome::Applied(103)));
    let after = shape(&book);
    assert_eq!(book.apply_depth_update(&next), Ok(UpdateOutcome::Stale));
    assert_eq!(shape(&book), after);
}

#[test]
fn overlapping_update_is_applied() {
    let mut book = book(100, &[("10.0", "5")], &[]);
    let overlapping = update(95, 101, &[("10.0", "6")], &[]);
    assert_eq!(book.apply_depth_update(&overlapping), Ok(UpdateOutcome::Applied(101)));
    assert_eq!(shape(&book), (101, levels(&[("10.0", "6")]), vec![]));
}

#[test]
fn gap_is_reported() {
    let mut book = book(100, &[("10.0", "5")], &[]);
    let before = shape(&book);
    assert_eq!(book.apply_depth_update(&update(102, 103, &[("10.0", "6")], &[])), Ok(UpdateOutcome::Gap));
    assert_eq!(shape(&book), before);
    assert_eq!(book.apply_depth_update(&update(102, 50, &[("bad", "6")], &[])), Ok(UpdateOutcome::Gap));
    assert_eq!(shape(&book), before);
    assert_eq!(book.apply_depth_update(&update(101, 103, &[("10.0", "6")], &[])), Ok(UpdateOutcome::Applied(103)));
}

#[test]
fn one_bad_text_among_ten_good_deltas_changes_nothing() {
    let mut book = book(100, &[("10.0", "5"), ("9", "1")], &[("10.5", "3")]);
    let before = shape(&book);
    let bids = [("10.0", "0"), ("9", "2"), ("8", "3"), ("7", "4"), ("6", "5")];
    let asks = [("10.5", "0"), ("11", "1"), ("12", "2"), ("13", "3"), ("14", "4"), ("15", "1O")];
    let bad = update(101, 111, &bids, &asks);
    assert_eq!(
        book.apply_depth_update(&bad),
        Err(ParseError { side: Side::Ask, index: 5, field: Field::Quantity })
    );
    assert_eq!(shape(&book), before);
    let good = update(101, 111, &bids, &asks[..5]);
    assert_eq!(book.apply_depth_update(&good), Ok(UpdateOutcome::Applied(111)));
    assert_eq!(
        shape(&book),
        (
            111,
            levels(&[("9", "2"), ("8", "3"), ("7", "4"), ("6", "5")]),
            levels(&[("11", "1"), ("12", "2"), ("13", "3"), ("14", "4")])
        )
    );
}

#[test]
fn bad_text_in_the_first_bid_is_named() {
    let mut book = book(100, &[("10.0", "5")], &[]);
    let bad = update(101, 101, &[("", "1"), ("x", "y")], &[("z", "1")]);
    assert_eq!(
        book.apply_depth_update(&bad),
        Err(ParseError { side: Side::Bid, index: 0, field: Field::Price })
    );
    assert_eq!(book.sequence_id(), 100);
}

#[test]
fn continuity_of_id_ranges() {
    assert_eq!(classify(200, 205, 210), Continuity::Gap);
    assert_eq!(classify(200, 202, 202), Continuity::Gap);
    assert_eq!(classify(200, 201, 201), Continuity::Applicable);
    assert_eq!(classify(200, 150, 201), Continuity::Applicable);
    assert_eq!(classify(200, 200, 200), Continuity::Stale);
    assert_eq!(classify(200, 150, 199), Continuity::Stale);
    assert_eq!(classify(200, 202, 100), Continuity::Gap);
    assert_eq!(classify(0, 0, 0), Continuity::Stale);
    assert_eq!(classify(0, 1, 1), Continuity::Applicable);
    assert_eq!(classify(0, 2, 2), Continuity::Gap);
    assert_eq!(classify(u64::MAX, u64::MAX, u64::MAX), Continuity::Stale);
    assert_eq!(classify(u64::MAX, 5, 7), Continuity::Stale);
    assert_eq!(classify(u64::MAX - 1, u64::MAX, u64::MAX), Continuity::Applicable);
    assert_eq!(classify(u64::MAX - 2, u64::MAX, u64::MAX), Continuity::Gap);
}

#[test]
fn sequence_id_can_reach_the_top() {
    let mut book = book(u64::MAX - 1, &[], &[]);
    assert_eq!(
        book.apply_depth_update(&update(u64::MAX, u64::MAX, &[("1", "1")], &[])),
        Ok(UpdateOutcome::Applied(u64::MAX))
    );
    assert_eq!(book.apply_depth_update(&update(u64::MAX, u64::MAX, &[("1", "2")], &[])), Ok(UpdateOutcome::Stale));
    assert_eq!(shape(&book), (u64::MAX, levels(&[("1", "1")]), vec![]));
}

#[test]
fn top_levels_are_a_prefix() {
    let book = book(1, &[("1", "1"), ("3", "3"), ("2", "2")], &[("6", "6"), ("4", "4"), ("5", "5")]);
    assert_eq!(book.top_bids(2), levels(&[("3", "3"), ("2", "2")]));
    assert_eq!(book.top_asks(2), levels(&[("4", "4"), ("5", "5")]));
    assert_eq!(book.top_bids(0), vec![]);
    assert_eq!(book.top_asks(0), vec![]);
    assert_eq!(book.top_bids(3), book.bids_descending());
    assert_eq!(book.top_asks(1000), book.asks_ascending());
}

#[test]
fn parse_levels_keeps_order_and_names_the_first_failure() {
    assert_eq!(parse_levels(&raws(&[("2", "1"), ("1", "0")])), Ok(levels(&[("2", "1"), ("1", "0")])));
    assert_eq!(parse_levels(&raws(&[])), Ok(vec![]));
    assert_eq!(parse_levels(&raws(&[("2", "1"), ("1", "q"), ("p", "0")])), Err((1, Field::Quantity)));
    assert_eq!(parse_levels(&raws(&[("p", "q")])), Err((0, Field::Price)));
}

#[test]
fn parse_sides_takes_bids_first() {
    assert_eq!(
        parse_sides(&raws(&[("2", "1")]), &raws(&[("3", "4")])),
        Ok((levels(&[("2", "1")]), levels(&[("3", "4")])))
    );
    assert_eq!(
        parse_sides(&raws(&[("2", "x")]), &raws(&[("y", "4")])),
        Err(ParseError { side: Side::Bid, index: 0, field: Field::Quantity })
    );
    assert_eq!(
        parse_sides(&raws(&[("2", "1")]), &raws(&[("3", "4"), ("y", "4")])),
        Err(ParseError { side: Side::Ask, index: 1, field: Field::Price })
    );
}
