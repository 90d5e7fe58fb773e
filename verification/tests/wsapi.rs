use orderbook_feed::apitree::coinjar::coinjar_clear;
use orderbook_feed::apitree::indreserve::{indreserve_clear, indreserve_parser};
use orderbook_feed::apitree::kraken::{kraken_clear, kraken_parser};
use orderbook_feed::apitree::ws;
use orderbook_feed::names::NameMap;
use orderbook_feed::apitree::wsapi::{check_plain, render, Parser, ParserKind};
use orderbook_feed::decimal::Decimal;
use orderbook_feed::error::FeedError;
use orderbook_feed::orderbook::{Orderbook, Side};
use std::str::FromStr;

fn dec(text: &str) -> Decimal {
    Decimal::from_str(text).unwrap()
}

fn prices(book: &Orderbook, side: Side) -> Vec<(String, String)> {
    let ladder = match side {
        Side::Bid => &book.bid,
        Side::Ask => &book.ask,
    };
    (0..ladder.len())
        .map(|i| {
            (
                ladder.get(i).price.to_string(),
                ladder.get(i).quantity.to_string(),
            )
        })
        .collect()
}

fn pairs(items: &[(&str, &str)]) -> Vec<(String, String)> {
    items
        .iter()
        .map(|(p, q)| (p.to_string(), q.to_string()))
        .collect()
}

#[test]
fn test_subscribe_text() {
    let rendered = ws("binance")
        .unwrap()
        .subscribe_text("BTCUSDT", 20)
        .unwrap();
    assert_eq!(
        rendered,
        vec![r#"{"id": 1, "method": "SUBSCRIBE", "params": ["BTCUSDT@depth20@100ms"]}"#]
    );
}

#[test]
fn test_binance_parse() {
    let mut parser = ws("binance").unwrap().parser();
    // subscription response, return empty Orderbook
    let out = parser.parse(r#"{"id": 1, "result": null}"#).unwrap();
    assert_eq!(out, None);

    // normal event
    let out = parser
        .parse(r#"{"lastUpdateId": 160, "bids":[["0.01", "0.2"]], "asks": []}"#)
        .unwrap();
    let mut ob = Orderbook::new("binance");
    ob.insert(
        Side::Bid,
        Decimal::from_str("0.01").unwrap(),
        Decimal::from_str("0.2").unwrap(),
    );
    if let Some(o) = out.as_ref() {
        ob.timestamp = o.timestamp;
    }
    assert_eq!(out, Some(ob));
}

#[test]
fn test_bitstamp_parse() {
    let mut parser = ws("bitstamp").unwrap().parser();
    // subscription response
    let out = parser
        .parse(
            r#"{"event": "bts:subscription_succeeded", "channel": "order_book_btcusd", "data": {}}"#,
        )
        .unwrap();
    assert_eq!(out, None);

    // normal event
    let out = parser
        .parse(
            r#"{"data":{
                "timestamp":"1691595437",
                "microtimestamp":"1691595437334962",
                "bids":[],
                "asks":[["29737","0.67548438"],["29738","0.67255217"]]
            },"channel":"order_book_btcusd","event":"data"}"#,
        )
        .unwrap();
    let mut ob = Orderbook::new("bitstamp");
    ob.insert(
        Side::Ask,
        Decimal::from_str("29737").unwrap(),
        Decimal::from_str("0.67548438").unwrap(),
    );
    ob.insert(
        Side::Ask,
        Decimal::from_str("29738").unwrap(),
        Decimal::from_str("0.67255217").unwrap(),
    );
    if let Some(o) = out.as_ref() {
        ob.timestamp = o.timestamp;
    }
    assert_eq!(out, Some(ob));
}

#[test]
fn test_indreserve_parse() {
    let mut parser = ws("independentreserve").unwrap().parser();
    // subscription response
    parser
        .parse(
            r#"{"Data": ["orderbook/5/btc/aud"], "Event": "Subscriptions", "Time": 1660895883834}"#,
        )
        .unwrap();
    let out = parser
        .parse(
            r#"{"Channel": "orderbook/5/btc/aud","Data": {
                "Bids": [{
                    "Price": 31802.46,"Volume": 0.25
                },{
                    "Price": 31802.45,"Volume": 0.32464684
                }],
                "Offers": [{
                    "Price": 31844.99,"Volume": 0.30740328
                },{
                    "Price": 31845,"Volume": 1.5
                }],
                "Crc32": 2893776693
              },
              "Time": 1660895883834,"Event": "OrderBookSnapshot"
            }"#,
        )
        .unwrap();
    let mut ob = Orderbook::new("independentreserve");
    ob.insert(
        Side::Bid,
        Decimal::from_str("31802.46").unwrap(),
        Decimal::from_str("0.25").unwrap(),
    );
    ob.insert(
        Side::Bid,
        Decimal::from_str("31802.45").unwrap(),
        Decimal::from_str("0.32464684").unwrap(),
    );
    ob.insert(
        Side::Ask,
        Decimal::from_str("31844.99").unwrap(),
        Decimal::from_str("0.30740328").unwrap(),
    );
    ob.insert(
        Side::Ask,
        Decimal::from_str("31845").unwrap(),
        Decimal::from_str("1.5").unwrap(),
    );
    if let Some(o) = out.as_ref() {
        ob.timestamp = o.timestamp;
    }
    assert_eq!(out, Some(ob));
}

#[test]
fn unknown_exchange_has_no_stream() {
    assert_eq!(ws("nowhere").err(), Some(FeedError::UnsupportedExchange));
}

#[test]
fn registry_holds_the_endpoints_of_the_streams() {
    let expected = [
        ("binance", "wss://stream.binance.com:9443/ws", 1, false),
        ("binance_futures", "wss://fstream.binance.com:9443/ws", 1, false),
        ("bitstamp", "wss://ws.bitstamp.net", 1, false),
        (
            "independentreserve",
            "wss://websockets.independentreserve.com/orderbook/20?subscribe={}",
            1,
            true,
        ),
        ("btcmarkets", "wss://socket.btcmarkets.net/v2", 1, false),
        (
            "coinjar",
            "wss://feed.exchange.coinjar.com/socket/websocket",
            2,
            false,
        ),
        ("kraken", "wss://ws.kraken.com", 2, false),
    ];
    for (name, endpoint, templates, render_url) in expected {
        let api = ws(name).unwrap();
        assert_eq!(api.endpoint, endpoint);
        assert_eq!(api.subscribe_template.len(), templates);
        assert_eq!(api.render_url, render_url);
        assert_eq!(api.heartbeat, None);
        assert_eq!(api.reconnect_sec, None);
    }
    assert_eq!(ws("btcmarkets").unwrap().backoff_sec, 4);
    assert_eq!(ws("kraken").unwrap().backoff_sec, 0);
}

#[test]
fn subscriptions_of_two_templates_come_in_order() {
    let frames = ws("coinjar").unwrap().subscribe_text("BTCAUD", 20).unwrap();
    assert_eq!(
        frames,
        vec![
            r#"{"topic": "book:BTCAUD", "event": "phx_join", "payload": {}, "ref": 0}"#,
            r#"{"topic": "ticker:BTCAUD", "event": "phx_join", "payload": {}, "ref": 0}"#,
        ]
    );
    let frames = ws("kraken").unwrap().subscribe_text("XBT/USD", 20).unwrap();
    assert_eq!(
        frames[0],
        r#"{"event":"subscribe","pair":["XBT/USD"], "subscription": {"name":"book","depth":25}}"#
    );
}

#[test]
fn binance_refuses_what_is_no_depth_frame() {
    let mut parser = Parser::new(ParserKind::Binance);
    assert_eq!(parser.parse("not json"), Err(FeedError::Malformed));
    assert_eq!(parser.parse("[1, 2]"), Err(FeedError::Malformed));
    assert_eq!(
        parser.parse(r#"{"lastUpdateId": 1.5, "bids": [], "asks": []}"#),
        Err(FeedError::Malformed)
    );
    assert_eq!(
        parser.parse(r#"{"lastUpdateId": 7, "bids": [["1", "2", "3"]], "asks": []}"#),
        Err(FeedError::Malformed)
    );
    assert_eq!(
        parser.parse(r#"{"lastUpdateId": 7, "bids": [["1", 2]], "asks": []}"#),
        Err(FeedError::Malformed)
    );
    assert_eq!(
        parser.parse(r#"{"lastUpdateId": 7, "bids": [["1", "2"]], "asks": [], "result": 3}"#),
        Err(FeedError::ResultNotEmpty)
    );
    assert_eq!(
        parser.parse(r#"{"lastUpdateId": 7, "bids": [["1", "x"]], "asks": []}"#),
        Err(FeedError::BadDecimal)
    );
}

#[test]
fn binance_level_of_quantity_zero_is_left_out() {
    let mut parser = Parser::new(ParserKind::Binance);
    let book = parser
        .parse(r#"{"lastUpdateId": 7, "bids": [["3", "1"], ["2", "0"], ["1", "4"]], "asks": [["5", "1"]]}"#)
        .unwrap()
        .unwrap();
    assert_eq!(prices(&book, Side::Bid), pairs(&[("1", "4"), ("3", "1")]));
    assert_eq!(prices(&book, Side::Ask), pairs(&[("5", "1")]));
    assert_eq!(book.name, "binance");
}

#[test]
fn bitstamp_refuses_a_data_event_of_another_channel() {
    let mut parser = Parser::new(ParserKind::Bitstamp);
    assert_eq!(
        parser.parse(r#"{"event": "data", "channel": "live_trades_btcusd", "data": {}}"#),
        Err(FeedError::NotOrderbookChannel)
    );
    assert_eq!(
        parser.parse(r#"{"event": "data", "channel": "order_book_btcusd", "data": {"bids": [], "asks": []}}"#),
        Err(FeedError::Malformed)
    );
    assert_eq!(
        parser.parse(r#"{"event": "data", "channel": "order_book_btcusd"}"#),
        Err(FeedError::Malformed)
    );
}

#[test]
fn bitstamp_asks_come_out_in_ascending_order() {
    let mut parser = Parser::new(ParserKind::Bitstamp);
    let book = parser
        .parse(
            r#"{"data":{"timestamp":"1","microtimestamp":"2","bids":[],
                "asks":[["29738","0.67255217"],["29737","0.67548438"]]},
                "channel":"order_book_btcusd","event":"data"}"#,
        )
        .unwrap()
        .unwrap();
    assert_eq!(
        prices(&book, Side::Ask),
        pairs(&[("29737", "0.67548438"), ("29738", "0.67255217")])
    );
}

#[test]
fn indreserve_change_with_zero_volume_deletes_the_level() {
    let mut parser = Parser::new(ParserKind::IndependentReserve);
    let ack = r#"{"Data": ["orderbook/5/btc/aud"], "Event": "Subscriptions", "Time": 1}"#;
    assert_eq!(parser.parse(ack), Ok(None));
    assert!(parser.books.get("orderbook/5/btc/aud").is_some());
    parser
        .parse(
            r#"{"Channel": "orderbook/5/btc/aud", "Event": "OrderBookSnapshot", "Data": {
                "Bids": [{"Price": 10.5, "Volume": 1}, {"Price": 10, "Volume": 2}],
                "Offers": [{"Price": 11, "Volume": 3}], "Crc32": 1}}"#,
        )
        .unwrap();
    let book = parser
        .parse(
            r#"{"Channel": "orderbook/5/btc/aud", "Event": "OrderBookChange", "Data": {
                "Bids": [{"Price": 10.5, "Volume": 0}],
                "Offers": [{"Price": 12, "Volume": 4}], "Crc32": 2}}"#,
        )
        .unwrap()
        .unwrap();
    assert_eq!(prices(&book, Side::Bid), pairs(&[("10", "2")]));
    assert_eq!(prices(&book, Side::Ask), pairs(&[("11", "3"), ("12", "4")]));
    let again = parser
        .parse(
            r#"{"Channel": "orderbook/5/btc/aud", "Event": "OrderBookSnapshot", "Data": {
                "Bids": [], "Offers": [{"Price": 20, "Volume": 1}], "Crc32": 3}}"#,
        )
        .unwrap()
        .unwrap();
    assert_eq!(prices(&again, Side::Bid), pairs(&[]));
    assert_eq!(prices(&again, Side::Ask), pairs(&[("20", "1")]));
}

#[test]
fn indreserve_needs_the_channel_to_be_announced() {
    let mut parser = Parser::new(ParserKind::IndependentReserve);
    assert_eq!(
        parser.parse(
            r#"{"Channel": "orderbook/5/btc/aud", "Event": "OrderBookChange", "Data": {
                "Bids": [], "Offers": [], "Crc32": 2}}"#
        ),
        Err(FeedError::UnknownChannel)
    );
    assert_eq!(parser.parse(r#"{"Event": "Heartbeat"}"#), Ok(None));
    assert_eq!(
        parser.parse(r#"{"Event": "Subscriptions", "Data": [1]}"#),
        Err(FeedError::Malformed)
    );
    assert_eq!(parser.books.len(), 0);
}

#[test]
fn repeated_announcement_changes_nothing() {
    let mut parser = Parser::new(ParserKind::IndependentReserve);
    let ack = r#"{"Data": ["a", "b"], "Event": "Subscriptions"}"#;
    assert_eq!(parser.parse(ack), Ok(None));
    let first = (
        parser.books.len(),
        parser.books.get("a").map(|b| prices(b, Side::Bid)),
    );
    assert_eq!(parser.parse(ack), Ok(None));
    let second = (
        parser.books.len(),
        parser.books.get("a").map(|b| prices(b, Side::Bid)),
    );
    assert_eq!(first, second);
    assert_eq!(parser.books.len(), 2);
}

#[test]
fn btcmarkets_keeps_a_book_for_each_market() {
    let mut parser = Parser::new(ParserKind::BtcMarkets);
    let book = parser
        .parse(
            r#"{"marketId": "BTC-AUD", "messageType": "orderbook",
                "bids": [["100", "1"]], "asks": [["101", "2"]]}"#,
        )
        .unwrap()
        .unwrap();
    assert_eq!(prices(&book, Side::Bid), pairs(&[("100", "1")]));
    let ticked = parser
        .parse(
            r#"{"marketId": "BTC-AUD", "messageType": "tick",
                "lastPrice": "100.5", "volume24h": "12.25"}"#,
        )
        .unwrap()
        .unwrap();
    assert_eq!(ticked.last_price, dec("100.5"));
    assert_eq!(ticked.volume, dec("12.25"));
    assert_eq!(prices(&ticked, Side::Ask), pairs(&[("101", "2")]));
    let other = parser
        .parse(r#"{"marketId": "ETH-AUD", "messageType": "orderbook", "bids": [], "asks": []}"#)
        .unwrap()
        .unwrap();
    assert_eq!(other.ask.len(), 0);
    assert_eq!(other.name, "btcmarkets");
    assert_eq!(parser.books.len(), 2);
    let snapshot = parser
        .parse(r#"{"marketId": "BTC-AUD", "messageType": "orderbook", "bids": [], "asks": [["102", "1"]]}"#)
        .unwrap()
        .unwrap();
    assert_eq!(prices(&snapshot, Side::Bid), pairs(&[]));
    assert_eq!(prices(&snapshot, Side::Ask), pairs(&[("102", "1")]));
    assert_eq!(snapshot.last_price, dec("100.5"));
}

#[test]
fn btcmarkets_control_message_yields_nothing() {
    let mut parser = Parser::new(ParserKind::BtcMarkets);
    assert_eq!(
        parser.parse(r#"{"messageType": "heartbeat", "channels": []}"#),
        Ok(None)
    );
    assert_eq!(
        parser.parse(r#"{"marketId": "BTC-AUD", "messageType": "tick", "lastPrice": "", "volume24h": "1"}"#),
        Err(FeedError::BadDecimal)
    );
    assert_eq!(parser.parse(r#"{"marketId": "BTC-AUD"}"#), Err(FeedError::Malformed));
}

#[test]
fn coinjar_reads_books_and_tickers_of_a_pair() {
    let mut parser = Parser::new(ParserKind::Coinjar);
    assert_eq!(
        parser.parse(r#"{"event": "phx_reply", "topic": "book:BTCAUD", "payload": {"status": "ok"}}"#),
        Ok(None)
    );
    assert_eq!(parser.books.len(), 0);
    let book = parser
        .parse(
            r#"{"event": "init", "topic": "book:BTCAUD",
                "payload": {"bids": [["10", "1"], ["9", "2"]], "asks": [["11", "3"]]}}"#,
        )
        .unwrap()
        .unwrap();
    assert_eq!(prices(&book, Side::Bid), pairs(&[("9", "2"), ("10", "1")]));
    let updated = parser
        .parse(
            r#"{"event": "update", "topic": "book:BTCAUD",
                "payload": {"bids": [["10", "0"]], "asks": [["12", "1"]]}}"#,
        )
        .unwrap()
        .unwrap();
    assert_eq!(prices(&updated, Side::Bid), pairs(&[("9", "2")]));
    assert_eq!(prices(&updated, Side::Ask), pairs(&[("11", "3"), ("12", "1")]));
    let ticked = parser
        .parse(
            r#"{"event": "update", "topic": "ticker:BTCAUD",
                "payload": {"volume": "55.5", "last": "10.25"}}"#,
        )
        .unwrap()
        .unwrap();
    assert_eq!(ticked.volume, dec("55.5"));
    assert_eq!(ticked.last_price, dec("10.25"));
    assert_eq!(prices(&ticked, Side::Bid), pairs(&[("9", "2")]));
    assert_eq!(ticked.name, "coinjar");
    assert_eq!(parser.books.len(), 1);
    assert!(parser.books.get("BTCAUD").is_some());
    assert_eq!(
        parser.parse(r#"{"event": "update", "topic": "trades:BTCAUD", "payload": {}}"#),
        Ok(None)
    );
}

#[test]
fn kraken_control_message_is_ignored() {
    let mut parser = Parser::new(ParserKind::Kraken);
    assert_eq!(parser.parse(r#"{"event":"heartbeat"}"#), Ok(None));
    assert_eq!(parser.parse("{ this is not even json"), Ok(None));
    assert_eq!(parser.books.len(), 0);
    assert_eq!(parser.parse(""), Err(FeedError::Malformed));
    assert_eq!(parser.parse("[1, {}, \"book-25\"]"), Err(FeedError::Malformed));
}

#[test]
fn kraken_reads_snapshots_changes_and_tickers() {
    let mut parser = Parser::new(ParserKind::Kraken);
    let book = parser
        .parse(
            r#"[336, {"as": [["5541.3", "2.5", "1534614248.1"], ["5541.8", "0.3", "1534614098.3"]],
                      "bs": [["5541.2", "1.5", "1534614248.7"]]}, "book-25", "XBT/USD"]"#,
        )
        .unwrap()
        .unwrap();
    assert_eq!(
        prices(&book, Side::Ask),
        pairs(&[("5541.3", "2.5"), ("5541.8", "0.3")])
    );
    assert_eq!(prices(&book, Side::Bid), pairs(&[("5541.2", "1.5")]));
    let changed = parser
        .parse(
            r#"[336, {"a": [["5541.3", "0", "1534614335.3"], ["5542.5", "0.4", "1534614335.4", "r"]]},
                "book-25", "XBT/USD"]"#,
        )
        .unwrap()
        .unwrap();
    assert_eq!(
        prices(&changed, Side::Ask),
        pairs(&[("5541.8", "0.3"), ("5542.5", "0.4")])
    );
    assert_eq!(prices(&changed, Side::Bid), pairs(&[("5541.2", "1.5")]));
    let ticked = parser
        .parse(
            r#"[340, {"c": ["5541.9", "0.1"], "v": ["120.5", "4500.25"]}, "ticker", "XBT/USD"]"#,
        )
        .unwrap()
        .unwrap();
    assert_eq!(ticked.last_price, dec("5541.9"));
    assert_eq!(ticked.volume, dec("4500.25"));
    assert_eq!(ticked.name, "kraken");
    assert_eq!(parser.parse(r#"[1, {}, "trade", "XBT/USD"]"#), Ok(None));
    assert_eq!(
        parser.parse(r#"[1, {"a": [["1"]]}, "book-25", "XBT/USD"]"#),
        Err(FeedError::Malformed)
    );
}

#[test]
fn clearing_a_parser_drops_its_books() {
    let mut parser = Parser::new(ParserKind::Kraken);
    parser
        .parse(r#"[1, {"bs": [["1", "1", "0"]]}, "book-25", "XBT/USD"]"#)
        .unwrap();
    assert_eq!(parser.books.len(), 1);
    parser.clear();
    assert_eq!(parser.books.len(), 0);
    let book = parser
        .parse(r#"[1, {"b": [["2", "1", "0"]]}, "book-25", "XBT/USD"]"#)
        .unwrap()
        .unwrap();
    assert_eq!(prices(&book, Side::Bid), pairs(&[("2", "1")]));
}

#[test]
fn control_frame_leaves_no_trace_for_the_next_frame() {
    let data = r#"{"marketId": "BTC-AUD", "messageType": "tick", "lastPrice": "7", "volume24h": "8"}"#;
    let mut plain = Parser::new(ParserKind::BtcMarkets);
    let mut echoed = Parser::new(ParserKind::BtcMarkets);
    assert_eq!(
        echoed.parse(r#"{"marketId": "BTC-AUD", "messageType": "subscribed"}"#),
        Ok(None)
    );
    let a = plain.parse(data).unwrap().unwrap();
    let mut b = echoed.parse(data).unwrap().unwrap();
    b.timestamp = a.timestamp;
    assert_eq!(a, b);
}

#[test]
fn template_that_cannot_be_filled_is_refused() {
    assert_eq!(render("{", &vec![]), Err(FeedError::BadTemplate));
    assert_eq!(
        render("{} and {}", &vec!["one".to_string()]),
        Err(FeedError::BadTemplate)
    );
    assert_eq!(
        render("{}-{}", &vec!["a".to_string(), "20".to_string()]),
        Ok("a-20".to_string())
    );
    assert_eq!(render("{{}}", &vec![]), Ok("{}".to_string()));
}

#[test]
fn books_of_a_parser_can_be_kept_and_cleared_by_hand() {
    let mut books: NameMap<Orderbook> = NameMap::new();
    assert_eq!(
        indreserve_parser(&mut books, r#"{"Data": ["a"], "Event": "Subscriptions"}"#),
        Ok(None)
    );
    assert_eq!(books.len(), 1);
    indreserve_clear(&mut books);
    assert_eq!(books.len(), 0);
    kraken_parser(&mut books, r#"[1, {"bs": [["1", "1", "0"]]}, "book-25", "XBT/USD"]"#).unwrap();
    assert_eq!(books.len(), 1);
    kraken_clear(&mut books);
    assert_eq!(books.len(), 0);
    books.put("x".to_string(), Orderbook::new("coinjar"));
    coinjar_clear(&mut books);
    assert_eq!(books.len(), 0);
}

#[test]
fn repeated_announcement_keeps_the_levels_of_a_channel() {
    let mut parser = Parser::new(ParserKind::IndependentReserve);
    let ack = r#"{"Data": ["c"], "Event": "Subscriptions"}"#;
    assert_eq!(parser.parse(ack), Ok(None));
    parser
        .parse(
            r#"{"Channel": "c", "Event": "OrderBookSnapshot", "Data": {
                "Bids": [{"Price": 10, "Volume": 2}], "Offers": [{"Price": 11, "Volume": 3}], "Crc32": 1}}"#,
        )
        .unwrap();
    assert_eq!(parser.parse(r#"{"Data": ["c", "d"], "Event": "Subscriptions"}"#), Ok(None));
    assert_eq!(parser.books.len(), 2);
    let book = parser
        .parse(
            r#"{"Channel": "c", "Event": "OrderBookChange", "Data": {
                "Bids": [{"Price": 9, "Volume": 1}], "Offers": [], "Crc32": 2}}"#,
        )
        .unwrap()
        .unwrap();
    assert_eq!(prices(&book, Side::Bid), pairs(&[("9", "1"), ("10", "2")]));
    assert_eq!(prices(&book, Side::Ask), pairs(&[("11", "3")]));
}

#[test]
fn level_with_a_negative_quantity_is_left_out() {
    let mut parser = Parser::new(ParserKind::Binance);
    let book = parser
        .parse(r#"{"lastUpdateId": 7, "bids": [["3", "-1"], ["2", "5"]], "asks": []}"#)
        .unwrap()
        .unwrap();
    assert_eq!(prices(&book, Side::Bid), pairs(&[("2", "5")]));
}

#[test]
fn template_with_a_width_or_a_precision_is_refused() {
    let one = vec!["x".to_string()];
    let two = vec!["x".to_string(), "70000".to_string()];
    assert_eq!(render("{:70000}", &one), Err(FeedError::BadTemplate));
    assert_eq!(render("{:.70000}", &one), Err(FeedError::BadTemplate));
    assert_eq!(render("{:1$}", &two), Err(FeedError::BadTemplate));
    assert_eq!(render("{:5}", &one), Err(FeedError::BadTemplate));
    assert_eq!(render("{0}", &one), Err(FeedError::BadTemplate));
    assert_eq!(render("{name}", &one), Err(FeedError::BadTemplate));
    assert_eq!(render("{{{:9}}}", &one), Err(FeedError::BadTemplate));
    assert_eq!(render("open {", &one), Err(FeedError::BadTemplate));
    assert_eq!(render("{{{}}}", &one), Ok("{x}".to_string()));
    assert_eq!(render("no placeholder: 1", &vec![]), Ok("no placeholder: 1".to_string()));
    assert!(check_plain(""));
    assert!(check_plain("{}{{}}"));
    assert!(!check_plain("{:>8}"));
    for name in ["binance", "binance_futures", "bitstamp", "independentreserve", "btcmarkets", "coinjar", "kraken"] {
        let api = ws(name).unwrap();
        assert!(check_plain(api.endpoint));
        for template in api.subscribe_template.iter() {
            assert!(check_plain(template));
        }
    }
}
