use orderbook::decimal::FixedDecimal;
use orderbook::level::PriceLevel;
use orderbook::side::BookSide;

fn dec(text: &str) -> FixedDecimal {
    FixedDecimal::parse(text).unwrap()
}

fn level(price: &str, quantity: &str) -> PriceLevel {
    PriceLevel { price: dec(price), quantity: dec(quantity) }
}

fn levels(pairs: &[(&str, &str)]) -> Vec<PriceLevel> {
    pairs.iter().map(|p| level(p.0, p.1)).collect()
}

#[test]
fn new_side_is_empty() {
    let side = BookSide::new();
    assert_eq!(side.ascending(), vec![]);
    assert_eq!(side.descending(), vec![]);
    assert_eq!(side.lowest(), None);
    assert_eq!(side.highest(), None);
}

#[test]
fn side_upsert_and_load_differ_on_zero() {
    let mut side = BookSide::new();
    side.upsert(dec("10"), dec("1"));
    side.load(dec("10"), dec("0"));
    assert_eq!(side.ascending(), levels(&[("10", "1")]));
    side.load(dec("10.0"), dec("2"));
    assert_eq!(side.ascending(), levels(&[("10", "2")]));
    side.upsert(dec("10.000"), dec("0"));
    assert_eq!(side.ascending(), vec![]);
    side.upsert(dec("10.000"), dec("0"));
    side.load(dec("11"), dec("0.0"));
    assert_eq!(side.ascending(), vec![]);
}

#[test]
fn side_lists_in_both_directions() {
    let mut side = BookSide::new();
    side.load_all(&levels(&[("3", "1"), ("1", "1"), ("2", "0"), ("-5.5", "2"), ("1.0", "9")]));
    assert_eq!(side.ascending(), levels(&[("-5.5", "2"), ("1", "9"), ("3", "1")]));
    assert_eq!(side.descending(), levels(&[("3", "1"), ("1", "9"), ("-5.5", "2")]));
    assert_eq!(side.lowest(), Some(level("-5.5", "2")));
    assert_eq!(side.highest(), Some(level("3", "1")));
    side.upsert_all(&levels(&[("3", "0"), ("-5.5", "0"), ("4", "4"), ("2", "0")]));
    assert_eq!(side.ascending(), levels(&[("1", "9"), ("4", "4")]));
    assert_eq!(side.lowest(), Some(level("1", "9")));
    assert_eq!(side.highest(), Some(level("4", "4")));
}

#[test]
fn side_keeps_many_levels_in_order() {
    let mut side = BookSide::new();
    let mut expected = Vec::new();
    for i in 0..200u32 {
        let shuffled = (i * 73) % 200;
        let price = FixedDecimal::new(shuffled as i128 * 5 - 300, 1).unwrap();
        side.upsert(price, dec("1"));
        expected.push(PriceLevel { price: FixedDecimal::new(i as i128 * 5 - 300, 1).unwrap(), quantity: dec("1") });
    }
    assert_eq!(side.ascending(), expected);
    expected.reverse();
    assert_eq!(side.descending(), expected);
}
