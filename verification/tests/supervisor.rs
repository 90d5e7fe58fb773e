use orderbook_feed::aggregate::Level;
use orderbook_feed::decimal::Decimal;
use orderbook_feed::json::Json;
use orderbook_feed::names::NameMap;
use orderbook_feed::orderbook::{Orderbook, Side};
use orderbook_feed::supervisor::MarketData;
use orderbook_feed::text::{
    join, remove_pattern, same_text, split_in_two, starts_with, starts_with_char, u128_to_text,
};
use std::str::FromStr;

fn dec(text: &str) -> Decimal {
    Decimal::from_str(text).unwrap()
}

fn book(name: &str, ask: &str, quantity: &str) -> Orderbook {
    let mut ob = Orderbook::new(name);
    ob.insert(Side::Ask, dec(ask), dec(quantity));
    ob
}

fn level(exchange: &str, price: &str, amount: &str) -> Level {
    Level {
        exchange: exchange.to_string(),
        price: price.to_string(),
        amount: amount.to_string(),
    }
}

#[test]
fn update_replaces_the_book_of_an_exchange() {
    let mut data = MarketData::new();
    let first = data.update("a", book("A", "5", "1")).unwrap();
    assert_eq!(first.asks, vec![level("A", "5", "1")]);
    let second = data.update("b", book("B", "5", "2")).unwrap();
    assert_eq!(second.asks, vec![level("A", "5", "1"), level("B", "5", "2")]);
    let third = data.update("a", book("A", "4", "3")).unwrap();
    assert_eq!(third.asks, vec![level("A", "4", "3"), level("B", "5", "2")]);
    assert_eq!(data.cache.len(), 2);
    assert_eq!(third.timestamp.len(), 2);
}

#[test]
fn name_map_keeps_one_value_for_each_name() {
    let mut map: NameMap<u32> = NameMap::new();
    assert_eq!(map.get("x"), None);
    map.put("x".to_string(), 1);
    map.put("y".to_string(), 2);
    map.put("x".to_string(), 3);
    assert_eq!(map.len(), 2);
    assert_eq!(map.get("x"), Some(&3));
    assert_eq!(map.name_at(0), "x");
    assert_eq!(map.value_at(1), &2);
    assert_eq!(map.position("y"), Some(1));
    assert_eq!(map.take("x"), Some(3));
    assert_eq!(map.take("x"), None);
    assert_eq!(map.len(), 1);
    map.clear();
    assert_eq!(map.len(), 0);
}

#[test]
fn json_numbers_are_held_in_their_shortest_text() {
    let json = Json::parse(r#"{"a": 31845, "b": 31802.46, "c": -7, "d": 1.50, "e": [null, true, "x"]}"#)
        .unwrap();
    assert_eq!(json.get("a"), Some(&Json::Number("31845".to_string())));
    assert_eq!(json.get("b"), Some(&Json::Number("31802.46".to_string())));
    assert_eq!(json.get("c"), Some(&Json::Number("-7".to_string())));
    assert_eq!(json.get("d"), Some(&Json::Number("1.5".to_string())));
    assert_eq!(
        json.get("e"),
        Some(&Json::Array(vec![
            Json::Null,
            Json::Bool(true),
            Json::Text("x".to_string())
        ]))
    );
    assert_eq!(json.get("f"), None);
    assert!(json.is_object());
    assert_eq!(Json::parse("{"), None);
    assert_eq!(Json::parse("[1] 2"), None);
    assert_eq!(Json::parse(" null "), Some(Json::Null));
    assert_eq!(json.get("e").unwrap().as_array().unwrap().len(), 3);
    assert_eq!(json.get("a").unwrap().as_text(), None);
}

#[test]
fn text_helpers() {
    assert!(starts_with("order_book_btcusd", "order_book_"));
    assert!(!starts_with("order_boo", "order_book_"));
    assert!(!starts_with("xorder_book_", "order_book_"));
    assert!(starts_with("anything", ""));
    assert!(starts_with_char("{x", '{'));
    assert!(!starts_with_char("", '{'));
    assert!(!starts_with_char("[{", '{'));
    assert_eq!(remove_pattern("ticker:BTCAUD", "ticker:"), "BTCAUD");
    assert_eq!(remove_pattern("ticker:BTC ticker:AUD", "ticker:"), "BTC AUD");
    assert_eq!(remove_pattern("tickerBTC", "ticker:"), "tickerBTC");
    assert_eq!(remove_pattern("aaa", "aa"), "a");
    assert_eq!(remove_pattern("häuser:é", ":"), "häuseré");
    assert_eq!(remove_pattern("abc", ""), "abc");
    assert_eq!(
        join(&vec!["a".to_string(), "b".to_string(), "c".to_string()], ","),
        "a,b,c"
    );
    assert_eq!(join(&vec!["a".to_string()], ","), "a");
    assert_eq!(join(&vec![], ","), "");
    assert_eq!(
        split_in_two("BTC/AUD", '/'),
        Some(("BTC".to_string(), "AUD".to_string()))
    );
    assert_eq!(split_in_two("/", '/'), Some((String::new(), String::new())));
    assert_eq!(split_in_two("BTCAUD", '/'), None);
    assert_eq!(split_in_two("a/b/c", '/'), None);
}

#[test]
fn update_keeps_the_place_of_an_exchange() {
    let mut data = MarketData::new();
    data.update("a", book("A", "5", "1")).unwrap();
    data.update("b", book("B", "5", "2")).unwrap();
    data.update("c", book("C", "5", "3")).unwrap();
    let summary = data.update("b", book("B", "5", "9")).unwrap();
    assert_eq!(
        summary.asks,
        vec![level("A", "5", "1"), level("B", "5", "9"), level("C", "5", "3")]
    );
    assert_eq!(data.cache.name_at(0), "a");
    assert_eq!(data.cache.name_at(1), "b");
    assert_eq!(data.cache.name_at(2), "c");
}

#[test]
fn numbers_in_decimal_digits() {
    assert_eq!(u128_to_text(0), "0");
    assert_eq!(u128_to_text(7), "7");
    assert_eq!(u128_to_text(10), "10");
    assert_eq!(u128_to_text(1234567890), "1234567890");
    assert_eq!(u128_to_text(u128::MAX), u128::MAX.to_string());
    assert_eq!(u128_to_text(1_700_000_000_123), "1700000000123");
}

#[test]
fn texts_are_the_same_where_their_characters_are() {
    assert!(same_text("", ""));
    assert!(same_text("binance", "binance"));
    assert!(!same_text("binance", "binance_futures"));
    assert!(!same_text("binance", "binancE"));
    assert!(same_text("häuser", "häuser"));
    assert!(!same_text("häuser", "hauser"));
    assert!(!same_text("a", ""));
}
