use orderbook_feed::apitree::rest;
use orderbook_feed::apitree::restapi::{
    btcmarkets_book, btcmarkets_orderbook, coinspot_book, coinspot_orderbook,
    independentreserve_book, independentreserve_orderbook, Dummy, RestKind,
};
use orderbook_feed::json::Json;
use orderbook_feed::apitree::trades::{Moment, Trade, TradeWindow};
use orderbook_feed::decimal::Decimal;
use orderbook_feed::error::FeedError;
use std::str::FromStr;

fn dec(text: &str) -> Decimal {
    Decimal::from_str(text).unwrap()
}

const NOON: Moment = Moment {
    secs: 1_700_000_000,
    nanos: 0,
};

fn orders(status: &str) -> String {
    format!(
        r#"{{"status": "{}", "message": "ok", "buyorders": [{{"amount": 0.5, "rate": 100.5, "total": 1}}],
            "sellorders": [{{"amount": 2, "rate": 101}}, {{"amount": 1.25, "rate": 102.75}}]}}"#,
        status
    )
}

fn latest(status: &str, last: &str) -> String {
    format!(
        r#"{{"status": "{}", "prices": {{"bid": "1", "ask": "2", "last": "{}"}}}}"#,
        status, last
    )
}

fn completed(status: &str) -> String {
    format!(
        r#"{{"status": "{}", "buyorders": [
            {{"amount": 1.5, "solddate": "2023-11-14T22:13:20.000Z"}},
            {{"amount": 2.25, "solddate": "2023-11-14T20:00:00.500Z"}},
            {{"amount": 4, "solddate": "2023-11-13T20:00:00.000Z"}}]}}"#,
        status
    )
}

#[test]
fn table_of_polled_exchanges() {
    let table = Dummy {};
    assert_eq!(
        table.get("independentreserve").unwrap().endpoint,
        "https://api.independentreserve.com"
    );
    assert_eq!(table.get("btcmarkets").unwrap().endpoint, "https://api.btcmarkets.net");
    assert_eq!(table.get("coinspot").unwrap().endpoint, "https://www.coinspot.com.au");
    assert_eq!(table.get("coinspot").unwrap().orderbook, RestKind::Coinspot);
    assert!(table.get("binance").is_none());
    assert_eq!(rest("kraken").err(), Some(FeedError::UnsupportedExchange));
    assert_eq!(rest("btcmarkets").unwrap().orderbook, RestKind::BtcMarkets);
}

#[test]
fn requests_of_independent_reserve_name_both_currencies() {
    let api = rest("independentreserve").unwrap();
    assert_eq!(
        api.requests("Xbt-aud").unwrap(),
        vec![
            "https://api.independentreserve.com/Public/GetOrderbook?primaryCurrencyCode=Xbt&secondaryCurrencyCode=aud",
            "https://api.independentreserve.com/Public/GetMarketSummary?primaryCurrencyCode=Xbt&secondaryCurrencyCode=aud",
        ]
    );
    assert_eq!(api.requests("Xbtaud"), Err(FeedError::BadPair));
    assert_eq!(api.requests("Xbt-aud-usd"), Err(FeedError::BadPair));
}

#[test]
fn requests_of_coinspot_ask_for_the_coin_alone_on_the_aud_market() {
    let api = rest("coinspot").unwrap();
    assert_eq!(
        api.requests("BTC/AUD").unwrap(),
        vec![
            "https://www.coinspot.com.au/pubapi/v2/orders/open/BTC/AUD",
            "https://www.coinspot.com.au/pubapi/v2/latest/BTC",
            "https://www.coinspot.com.au/pubapi/v2/orders/completed/BTC/AUD",
        ]
    );
    assert_eq!(
        api.requests("ETH/BTC").unwrap()[1],
        "https://www.coinspot.com.au/pubapi/v2/latest/ETH/BTC"
    );
    assert_eq!(api.requests("BTCAUD"), Err(FeedError::BadPair));
}

#[test]
fn btcmarkets_answers_give_a_book() {
    let book = btcmarkets_orderbook(
        r#"{"marketId": "BTC-AUD", "asks": [["101", "2"], ["100.5", "1"]], "bids": [["99", "3"]]}"#,
        r#"{"marketId": "BTC-AUD", "volume24h": "12.5", "lastPrice": "100"}"#,
    )
    .unwrap();
    assert_eq!(book.name, "btcmarkets");
    assert_eq!(book.ask.len(), 2);
    assert_eq!(book.ask.get(0).price, dec("100.5"));
    assert_eq!(book.bid.get(0).quantity, dec("3"));
    assert_eq!(book.last_price, dec("100"));
    assert_eq!(book.volume, dec("12.5"));
    assert_eq!(
        btcmarkets_orderbook(r#"{"asks": []}"#, r#"{"volume24h": "1", "lastPrice": "1"}"#),
        Err(FeedError::Malformed)
    );
    assert_eq!(
        btcmarkets_orderbook(r#"{"asks": [], "bids": []}"#, r#"{"volume24h": "1", "lastPrice": "?"}"#),
        Err(FeedError::BadDecimal)
    );
}

#[test]
fn independent_reserve_answers_give_a_book() {
    let book = independentreserve_orderbook(
        r#"{"BuyOrders": [{"Price": 31802.46, "Volume": 0.25, "Guid": "x"}],
            "SellOrders": [{"Price": 31845, "Volume": 1.5}], "CreatedTimestampUtc": "t"}"#,
        r#"{"LastPrice": 31810.5, "DayVolumeXbt": 42.125}"#,
    )
    .unwrap();
    assert_eq!(book.name, "independentreserve");
    assert_eq!(book.bid.get(0).price.to_string(), "31802.46");
    assert_eq!(book.ask.get(0).price.to_string(), "31845");
    assert_eq!(book.ask.get(0).quantity.to_string(), "1.5");
    assert_eq!(book.last_price.to_string(), "31810.5");
    assert_eq!(book.volume.to_string(), "42.125");
    assert_eq!(
        independentreserve_orderbook(
            r#"{"BuyOrders": [{"Price": "1", "Volume": 1}], "SellOrders": []}"#,
            r#"{"LastPrice": 1, "DayVolumeXbt": 1}"#
        ),
        Err(FeedError::Malformed)
    );
}

#[test]
fn coinspot_answers_give_a_book_and_the_volume_of_a_day() {
    let mut window = TradeWindow::new();
    let book = coinspot_orderbook(
        &mut window,
        &orders("ok"),
        &latest("ok", "100.75"),
        &completed("ok"),
        NOON,
    )
    .unwrap();
    assert_eq!(book.name, "coinspot");
    assert_eq!(book.bid.len(), 1);
    assert_eq!(book.bid.get(0).price.to_string(), "100.5");
    assert_eq!(book.bid.get(0).quantity.to_string(), "0.5");
    assert_eq!(book.ask.len(), 2);
    assert_eq!(book.ask.get(1).price.to_string(), "102.75");
    assert_eq!(book.last_price.to_string(), "100.75");
    // 2023-11-14T22:13:20Z is the time of the poll; the trade of the day
    // before it lies outside the window
    assert_eq!(book.volume, dec("3.75"));
    assert_eq!(window.len(), 2);
}

#[test]
fn coinspot_window_counts_a_trade_once_and_forgets_old_ones() {
    let mut window = TradeWindow::new();
    coinspot_orderbook(&mut window, &orders("ok"), &latest("ok", "1"), &completed("ok"), NOON)
        .unwrap();
    let book = coinspot_orderbook(
        &mut window,
        &orders("ok"),
        &latest("ok", "1"),
        &completed("ok"),
        NOON,
    )
    .unwrap();
    assert_eq!(book.volume, dec("3.75"));
    assert_eq!(window.len(), 2);
    let later = Moment {
        secs: NOON.secs + 86400,
        nanos: 0,
    };
    let book = coinspot_orderbook(
        &mut window,
        &orders("ok"),
        &latest("ok", "1"),
        r#"{"status": "ok", "buyorders": []}"#,
        later,
    )
    .unwrap();
    // a trade made exactly 24 hours before the poll is kept but not counted
    assert_eq!(book.volume, dec("0"));
    assert_eq!(window.len(), 1);
}

#[test]
fn coinspot_refuses_bad_status_and_bad_shape() {
    let mut window = TradeWindow::new();
    assert_eq!(
        coinspot_orderbook(&mut window, &orders("ok"), &latest("ok", "1"), &completed("error"), NOON),
        Err(FeedError::BadStatus)
    );
    assert_eq!(window.len(), 0);
    assert_eq!(
        coinspot_orderbook(&mut window, &orders("error"), &latest("ok", "1"), &completed("ok"), NOON),
        Err(FeedError::BadStatus)
    );
    assert_eq!(window.len(), 2);
    assert_eq!(
        coinspot_orderbook(&mut window, &orders("ok"), &latest("down", "1"), &completed("ok"), NOON),
        Err(FeedError::BadStatus)
    );
    assert_eq!(
        coinspot_orderbook(&mut window, &orders("ok"), &latest("ok", "one"), &completed("ok"), NOON),
        Err(FeedError::BadDecimal)
    );
    assert_eq!(
        coinspot_orderbook(
            &mut window,
            &orders("ok"),
            &latest("ok", "1"),
            r#"{"status": "ok", "buyorders": [{"amount": 1, "solddate": "yesterday"}]}"#,
            NOON
        ),
        Err(FeedError::Malformed)
    );
    assert_eq!(
        coinspot_orderbook(&mut window, "{}", &latest("ok", "1"), &completed("ok"), NOON),
        Err(FeedError::Malformed)
    );
}

#[test]
fn window_keeps_trades_in_the_order_of_their_time() {
    let mut window = TradeWindow::new();
    for (secs, nanos, amount) in [(10, 5, "1"), (5, 0, "2"), (10, 1, "4"), (10, 5, "8")] {
        window.record(Trade {
            at: Moment { secs, nanos },
            amount: dec(amount),
        });
    }
    assert_eq!(window.len(), 3);
    let all = window.volume(&Moment { secs: 0, nanos: 0 }, &Moment { secs: 20, nanos: 0 });
    assert_eq!(all, dec("14"));
    let some = window.volume(&Moment { secs: 5, nanos: 0 }, &Moment { secs: 10, nanos: 1 });
    assert_eq!(some, dec("4"));
    window.prune(&Moment { secs: 10, nanos: 1 });
    assert_eq!(window.len(), 2);
    assert_eq!(
        Moment { secs: i64::MIN + 5, nanos: 7 }.a_day_before(),
        Moment { secs: i64::MIN, nanos: 7 }
    );
    assert_eq!(
        Moment { secs: 86401, nanos: 7 }.a_day_before(),
        Moment { secs: 1, nanos: 7 }
    );
}

#[test]
fn books_are_built_from_answers_read_as_json() {
    let shot = Json::Object(vec![
        (
            "asks".to_string(),
            Json::Array(vec![Json::Array(vec![
                Json::Text("101".to_string()),
                Json::Text("2".to_string()),
            ])]),
        ),
        ("bids".to_string(), Json::Array(vec![])),
    ]);
    let sum = Json::Object(vec![
        ("volume24h".to_string(), Json::Text("12.5".to_string())),
        ("lastPrice".to_string(), Json::Text("100".to_string())),
    ]);
    let book = btcmarkets_book(&shot, &sum).unwrap();
    assert_eq!(book.ask.get(0).price, dec("101"));
    assert_eq!(book.volume, dec("12.5"));
    assert_eq!(book.last_price, dec("100"));
    assert_eq!(btcmarkets_book(&sum, &shot), Err(FeedError::Malformed));

    let level = Json::Object(vec![
        ("Price".to_string(), Json::Number("31845".to_string())),
        ("Volume".to_string(), Json::Number("1.5".to_string())),
    ]);
    let shot = Json::Object(vec![
        ("BuyOrders".to_string(), Json::Array(vec![])),
        ("SellOrders".to_string(), Json::Array(vec![level])),
    ]);
    let sum = Json::Object(vec![
        ("LastPrice".to_string(), Json::Number("31810.5".to_string())),
        ("DayVolumeXbt".to_string(), Json::Number("42.125".to_string())),
    ]);
    let book = independentreserve_book(&shot, &sum).unwrap();
    assert_eq!(book.ask.get(0).quantity, dec("1.5"));
    assert_eq!(book.last_price, dec("31810.5"));
    assert_eq!(book.volume, dec("42.125"));

    let mut window = TradeWindow::new();
    let book = coinspot_book(
        &mut window,
        &Json::parse(&orders("ok")).unwrap(),
        &Json::parse(&latest("ok", "100.75")).unwrap(),
        &Json::parse(&completed("ok")).unwrap(),
        NOON,
    )
    .unwrap();
    assert_eq!(book.volume, dec("3.75"));
    assert_eq!(book.last_price, dec("100.75"));
    assert_eq!(window.len(), 2);
    assert_eq!(
        coinspot_book(&mut window, &Json::Null, &Json::Null, &Json::Null, NOON),
        Err(FeedError::Malformed)
    );
}
