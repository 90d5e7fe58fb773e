use orderbook_feed::aggregate::{AggregatedOrderbook, Level};
use orderbook_feed::decimal::Decimal;
use orderbook_feed::ladder::PriceLevel;
use orderbook_feed::orderbook::{Orderbook, Side};
use std::str::FromStr;

fn dec(text: &str) -> Decimal {
    Decimal::from_str(text).unwrap()
}

fn level(exchange: &str, price: &str, amount: &str) -> Level {
    Level {
        exchange: exchange.to_string(),
        price: price.to_string(),
        amount: amount.to_string(),
    }
}

#[test]
fn test_orderbook_trim() {
    let default_quantity: Decimal = Decimal::from_str("10").unwrap();
    let mut ob = Orderbook::new("");
    ob.insert(
        Side::Ask,
        Decimal::from_str("1").unwrap(),
        default_quantity.clone(),
    );
    ob.insert(
        Side::Ask,
        Decimal::from_str("2").unwrap(),
        default_quantity.clone(),
    );
    ob.trim(1);
    assert_eq!(ob.bid.len(), 0);
    assert_eq!(ob.ask.len(), 1);
    let one = Decimal::from_str("1").unwrap();
    assert_eq!(
        ob.ask.first(),
        Some(&PriceLevel {
            price: one,
            quantity: default_quantity
        })
    );
}

#[test]
fn test_agg_merge() {
    let default_quantity: Decimal = Decimal::from_str("10").unwrap();
    let mut ob1 = Orderbook::new("A");
    ob1.insert(
        Side::Ask,
        Decimal::from_str("1").unwrap(),
        default_quantity.clone(),
    );
    ob1.insert(
        Side::Ask,
        Decimal::from_str("2").unwrap(),
        default_quantity.clone(),
    );
    let mut ob2 = Orderbook::new("B");
    ob2.insert(
        Side::Ask,
        Decimal::from_str("1").unwrap(),
        default_quantity.clone(),
    );
    ob2.insert(
        Side::Ask,
        Decimal::from_str("3").unwrap(),
        default_quantity.clone(),
    );
    let mut agg = AggregatedOrderbook::new();
    agg.merge(&ob1);
    agg.merge(&ob2);
    let summary = agg.finalize().unwrap();
    assert_eq!(summary.spread, 0_f64.to_string());
    assert_eq!(
        summary.asks,
        vec![
            Level {
                exchange: "A".to_string(),
                price: 1_f64.to_string(),
                amount: 10_f64.to_string(),
            },
            Level {
                exchange: "B".to_string(),
                price: 1_f64.to_string(),
                amount: 10_f64.to_string(),
            },
            Level {
                exchange: "A".to_string(),
                price: 2_f64.to_string(),
                amount: 10_f64.to_string()
            },
            Level {
                exchange: "B".to_string(),
                price: 3_f64.to_string(),
                amount: 10_f64.to_string(),
            },
        ]
    );
    assert_eq!(summary.bids.len(), 0);
}

#[test]
fn trim_keeps_the_best_two_levels_of_each_side() {
    let mut ob = Orderbook::new("x");
    for p in ["10", "11", "12"] {
        ob.insert(Side::Bid, dec(p), dec("1"));
    }
    for p in ["20", "21", "22"] {
        ob.insert(Side::Ask, dec(p), dec("1"));
    }
    ob.trim(2);
    assert_eq!(ob.bid.len(), 2);
    assert_eq!(ob.bid.get(0).price, dec("11"));
    assert_eq!(ob.bid.get(1).price, dec("12"));
    assert_eq!(ob.ask.len(), 2);
    assert_eq!(ob.ask.get(0).price, dec("20"));
    assert_eq!(ob.ask.get(1).price, dec("21"));
}

#[test]
fn insert_of_zero_removes_the_level() {
    let mut ob = Orderbook::new("x");
    ob.insert(Side::Bid, dec("10"), dec("1"));
    ob.insert(Side::Bid, dec("11"), dec("2"));
    ob.insert(Side::Bid, dec("10.0"), dec("0"));
    assert_eq!(ob.bid.len(), 1);
    assert_eq!(ob.bid.get(0).price, dec("11"));
    ob.insert(Side::Bid, dec("12"), dec("0.00"));
    assert_eq!(ob.bid.len(), 1);
}

#[test]
fn insert_replaces_the_level_of_an_equal_price() {
    let mut ob = Orderbook::new("x");
    ob.insert(Side::Ask, dec("1.50"), dec("1"));
    ob.insert(Side::Ask, dec("1.5"), dec("7"));
    assert_eq!(ob.ask.len(), 1);
    assert_eq!(ob.ask.get(0).quantity, dec("7"));
    assert_eq!(ob.ask.get(0).price.to_string(), "1.5");
}

#[test]
fn insert_keeps_prices_in_numeric_order() {
    let mut ob = Orderbook::new("x");
    for p in ["9", "10", "1e1", "0.5", "100", "-3"] {
        ob.insert(Side::Ask, dec(p), dec("1"));
    }
    let prices: Vec<String> = (0..ob.ask.len())
        .map(|i| ob.ask.get(i).price.to_string())
        .collect();
    assert_eq!(prices, vec!["-3", "0.5", "9", "10", "100"]);
}

#[test]
fn crossed_book_is_kept_and_told() {
    let mut ob = Orderbook::new("x");
    ob.insert(Side::Bid, dec("10"), dec("1"));
    assert!(!ob.is_crossed());
    ob.insert(Side::Ask, dec("11"), dec("1"));
    assert!(!ob.is_crossed());
    ob.insert(Side::Ask, dec("10"), dec("1"));
    assert!(ob.is_crossed());
    assert_eq!(ob.ask.len(), 2);
}

#[test]
fn summary_lists_bids_from_the_highest_price_down() {
    let mut a = Orderbook::new("A");
    a.insert(Side::Bid, dec("5"), dec("1"));
    a.insert(Side::Bid, dec("7"), dec("2"));
    a.insert(Side::Ask, dec("9"), dec("3"));
    let mut b = Orderbook::new("B");
    b.insert(Side::Bid, dec("7"), dec("4"));
    b.insert(Side::Bid, dec("6"), dec("5"));
    let mut agg = AggregatedOrderbook::new();
    agg.merge(&a);
    agg.merge(&b);
    let summary = agg.finalize().unwrap();
    assert_eq!(
        summary.bids,
        vec![
            level("A", "7", "2"),
            level("B", "7", "4"),
            level("B", "6", "5"),
            level("A", "5", "1"),
        ]
    );
    assert_eq!(summary.asks, vec![level("A", "9", "3")]);
    assert_eq!(summary.spread, "2");
}

#[test]
fn summary_caps_each_side_at_ten_entries() {
    let mut agg = AggregatedOrderbook::new();
    for name in ["A", "B", "C"] {
        let mut ob = Orderbook::new(name);
        for p in 1..=8 {
            ob.insert(Side::Ask, dec(&p.to_string()), dec("1"));
            ob.insert(Side::Bid, dec(&format!("0.{}", p)), dec("1"));
        }
        agg.merge(&ob);
    }
    let summary = agg.finalize().unwrap();
    assert_eq!(summary.asks.len(), 10);
    assert_eq!(summary.bids.len(), 10);
    assert_eq!(summary.asks[9], level("A", "4", "1"));
    assert_eq!(summary.bids[0], level("A", "0.8", "1"));
    assert_eq!(summary.bids[9], level("A", "0.5", "1"));
}

#[test]
fn merge_takes_the_first_ten_levels_of_a_side() {
    let mut ob = Orderbook::new("A");
    for p in 1..=12 {
        ob.insert(Side::Ask, dec(&p.to_string()), dec("1"));
    }
    let mut agg = AggregatedOrderbook::new();
    agg.merge(&ob);
    assert_eq!(agg.ask.len(), 10);
    assert_eq!(agg.ask.get(9).price, dec("10"));
}

#[test]
fn summary_tells_each_exchange_time_volume_and_last_price() {
    let mut a = Orderbook::new("A");
    a.volume = dec("12.5");
    a.last_price = dec("100.25");
    a.timestamp = 1700000000123;
    let mut agg = AggregatedOrderbook::new();
    assert!(agg.spread.is_none());
    agg.merge(&a);
    assert_eq!(agg.spread, Some(dec("0")));
    let summary = agg.finalize().unwrap();
    assert_eq!(summary.timestamp.get("A"), Some(&"1700000000123".to_string()));
    assert_eq!(summary.volume.get("A"), Some(&"12.5".to_string()));
    assert_eq!(summary.last_price.get("A"), Some(&"100.25".to_string()));
    assert_eq!(summary.timestamp.len(), 1);
    assert_eq!(summary.spread, "0");
}

#[test]
fn later_merge_replaces_an_exchange_scalars() {
    let mut a = Orderbook::new("A");
    a.volume = dec("1");
    let mut again = Orderbook::new("A");
    again.volume = dec("2");
    let mut agg = AggregatedOrderbook::new();
    agg.merge(&a);
    agg.merge(&again);
    assert_eq!(agg.volume.len(), 1);
    assert_eq!(agg.volume.get("A"), Some(&dec("2")));
}

#[test]
fn decimal_equality_is_numeric_and_text_keeps_the_scale() {
    assert_eq!(dec("1.0"), dec("1.00"));
    assert_ne!(dec("1.0"), dec("1.01"));
    assert_eq!(dec("1.0").to_string(), "1.0");
    assert_eq!(dec("1.00").to_string(), "1.00");
    assert!(dec("-1").less_than(&dec("0.5")));
    assert!(!dec("2").less_than(&dec("2.0")));
    assert!(dec("0.000").is_zero());
    assert!(!dec("0.001").is_zero());
    assert!(Decimal::zero().is_zero());
    assert_eq!(Decimal::zero(), dec("0"));
    assert_eq!(dec("3.5").minus(&dec("1.25")).to_string(), "2.25");
    assert_eq!(dec("3.5").plus(&dec("1.25")).to_string(), "4.75");
    assert_eq!(dec("-123456789012345678901234567890.5").to_string(), "-123456789012345678901234567890.5");
}

#[test]
fn text_that_is_no_decimal_is_refused() {
    assert!(Decimal::parse("").is_none());
    assert!(Decimal::parse("abc").is_none());
    assert!(Decimal::parse("1.2.3").is_none());
    assert!(Decimal::from_str("NaN").is_err());
    assert!(Decimal::parse("12.75").is_some());
}

#[test]
fn book_is_stamped_with_the_time_of_its_last_insert() {
    let mut ob = Orderbook::new("x");
    assert_eq!(ob.name, "x");
    assert!(ob.volume.is_zero());
    assert!(ob.last_price.is_zero());
    assert!(ob.timestamp > 1_600_000_000_000);
    let made = ob.timestamp;
    ob.insert(Side::Bid, dec("1"), dec("1"));
    assert!(ob.timestamp >= made);
    let copy = ob.clone();
    assert_eq!(copy, ob);
    ob.clear_bids();
    ob.clear_asks();
    assert_eq!(ob.bid.len(), 0);
    assert_eq!(copy.bid.len(), 1);
}

#[test]
fn decimal_whose_scale_is_out_of_range_is_refused() {
    assert!(Decimal::parse("1e-65536").is_some());
    assert!(Decimal::parse("1e65536").is_some());
    assert!(Decimal::parse("1e-65537").is_none());
    assert!(Decimal::parse("1e65537").is_none());
    assert!(Decimal::parse("1e-9000000000000000000").is_none());
    assert!(Decimal::from_str("5e70000").is_err());
    let tiny = dec("1e-65536");
    let huge = dec("1e65536");
    assert!(tiny.less_than(&huge));
    assert!(!huge.same_value(&tiny));
    assert!(dec("-1e65536").less_than(&tiny));
    assert_eq!(dec("1e3"), dec("1000"));
    assert_eq!(dec("1000").minus(&dec("1e3")), dec("0"));
    assert_eq!(dec("0.5").plus(&dec("0.50")).to_string(), "1.00");
    assert_eq!(dec("2").minus(&dec("0.5")).to_string(), "1.5");
}

#[test]
fn decimals_that_differ_by_ten_places_of_zeros_are_equal() {
    let long = dec("7922816251677867875.0000000000");
    let short = dec("7922816251677867875");
    assert!(long.same_value(&short));
    assert!(short.same_value(&long));
    assert_eq!(long, short);
    assert!(!long.less_than(&short));
    assert!(!short.less_than(&long));
    let mut ob = Orderbook::new("x");
    ob.insert(Side::Ask, dec("7922816251677867875"), dec("1"));
    ob.insert(Side::Ask, dec("7922816251677867875.0000000000"), dec("2"));
    assert_eq!(ob.ask.len(), 1);
    assert_eq!(ob.ask.get(0).quantity, dec("2"));
    assert!(!dec("1.0000000000").same_value(&dec("1.0000000001")));
}

#[test]
fn quantity_that_is_not_above_zero_only_removes() {
    let mut ob = Orderbook::new("x");
    ob.insert(Side::Bid, dec("10"), dec("1"));
    ob.insert(Side::Bid, dec("11"), dec("-2"));
    assert_eq!(ob.bid.len(), 1);
    ob.insert(Side::Bid, dec("10"), dec("-0.5"));
    assert_eq!(ob.bid.len(), 0);
    ob.insert(Side::Ask, dec("10"), dec("0.0"));
    assert_eq!(ob.ask.len(), 0);
    ob.insert(Side::Ask, dec("10"), dec("0.0001"));
    assert_eq!(ob.ask.len(), 1);
    assert!(dec("0.0001").is_positive());
    assert!(!dec("0").is_positive());
    assert!(!dec("-3").is_positive());
}

#[test]
fn book_is_stamped_with_the_time_that_is_given() {
    let mut ob = Orderbook::new_at("kraken", 1234);
    assert_eq!(ob.timestamp, 1234);
    assert_eq!(ob.name, "kraken");
    assert_eq!(ob.bid.len(), 0);
    assert_eq!(ob.ask.len(), 0);
    ob.insert_at(Side::Bid, dec("1"), dec("2"), 5678);
    assert_eq!(ob.timestamp, 5678);
    assert_eq!(ob.bid.get(0).quantity, dec("2"));
    ob.trim(1);
    assert_eq!(ob.timestamp, 5678);
}

#[test]
fn spread_is_taken_at_the_larger_scale() {
    let nothing = dec("10.50").minus(&dec("10.5"));
    assert!(nothing.is_zero());
    assert!(format!("{:?}", nothing).contains("scale: 2"));
    assert_eq!(dec("10.5").minus(&dec("10.25")).to_string(), "0.25");
    assert_eq!(dec("1e2").minus(&dec("1")).to_string(), "99");
    assert!(format!("{:?}", dec("5").minus(&dec("0e-7"))).contains("scale: 7"));
    assert_eq!(dec("3").minus(&dec("0.000")).to_string(), "3.000");
    assert_eq!(dec("0").minus(&dec("1.5")).to_string(), "-1.5");
    assert_eq!(dec("0.00").minus(&dec("2")).to_string(), "-2.00");
}
