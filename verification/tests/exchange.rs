use orderbook_feed::apitree::trades::{Moment, TradeWindow};
use orderbook_feed::error::FeedError;
use orderbook_feed::exchange::{Exchange, ExchangeSetting, Frame, Plan};

fn setting(pair: &str, wait_secs: u64, ws_api: bool) -> ExchangeSetting {
    ExchangeSetting {
        pair: pair.to_string(),
        wait_secs,
        ws_api,
    }
}

fn connected(name: &str, pair: &str) -> Exchange {
    let mut driver = Exchange::new(name);
    driver.connect(vec![setting(pair, 0, true)]).unwrap();
    driver.established();
    driver
}

const DEPTH: &str = r#"{"lastUpdateId": 160, "bids":[["0.01", "0.2"]], "asks": [["0.02", "1"]]}"#;

#[test]
fn connect_plans_the_subscription_frames() {
    let mut driver = Exchange::new("coinjar");
    let plan = driver
        .connect(vec![setting("BTCAUD", 0, true), setting("ETHAUD", 5, true)])
        .unwrap();
    assert_eq!(
        plan,
        Plan::Stream {
            url: "wss://feed.exchange.coinjar.com/socket/websocket".to_string(),
            frames: vec![
                r#"{"topic": "book:BTCAUD", "event": "phx_join", "payload": {}, "ref": 0}"#.to_string(),
                r#"{"topic": "ticker:BTCAUD", "event": "phx_join", "payload": {}, "ref": 0}"#.to_string(),
                r#"{"topic": "book:ETHAUD", "event": "phx_join", "payload": {}, "ref": 0}"#.to_string(),
                r#"{"topic": "ticker:ETHAUD", "event": "phx_join", "payload": {}, "ref": 0}"#.to_string(),
            ],
        }
    );
    assert_eq!(driver.pairs, vec!["BTCAUD", "ETHAUD"]);
    assert_eq!(driver.wait_secs, 1);
    assert!(!driver.connected);
}

#[test]
fn connect_renders_the_pairs_into_the_address() {
    let mut driver = Exchange::new("independentreserve");
    let plan = driver
        .connect(vec![setting("xbt-aud", 3, true), setting("eth-aud", 3, true)])
        .unwrap();
    assert_eq!(
        plan,
        Plan::Stream {
            url: "wss://websockets.independentreserve.com/orderbook/20?subscribe=xbt-aud,eth-aud"
                .to_string(),
            frames: vec![],
        }
    );
    assert_eq!(driver.wait_secs, 3);
}

#[test]
fn connect_needs_a_pair_and_a_known_exchange() {
    let mut driver = Exchange::new("binance");
    assert_eq!(driver.connect(vec![]), Err(FeedError::NoPairs));
    let mut driver = Exchange::new("nowhere");
    assert_eq!(
        driver.connect(vec![setting("x", 0, true)]),
        Err(FeedError::UnsupportedExchange)
    );
    let mut driver = Exchange::new("nowhere");
    assert_eq!(driver.connect(vec![setting("x", 0, false)]), Ok(Plan::Poll));
    assert!(!driver.ws_api);
}

#[test]
fn frame_before_the_stream_is_open_is_refused() {
    let mut driver = Exchange::new("binance");
    driver.connect(vec![setting("btcusdt", 0, true)]).unwrap();
    assert_eq!(
        driver.next(Frame::Text(DEPTH.as_bytes().to_vec())),
        Err(FeedError::NotConnected)
    );
    assert_eq!(driver.tick(5).err(), Some(FeedError::NotConnected));
}

#[test]
fn whole_frame_yields_a_trimmed_book() {
    let mut driver = connected("binance", "btcusdt");
    let mut levels = Vec::new();
    for p in 1..=15 {
        levels.push(format!(r#"["{}", "1"]"#, p));
    }
    let raw = format!(
        r#"{{"lastUpdateId": 1, "bids": [{}], "asks": [{}]}}"#,
        levels.join(","),
        levels.join(",")
    );
    let book = driver
        .next(Frame::Binary(raw.into_bytes()))
        .unwrap()
        .unwrap();
    assert_eq!(book.bid.len(), 10);
    assert_eq!(book.ask.len(), 10);
    assert_eq!(book.bid.get(0).price.to_string(), "6");
    assert_eq!(book.bid.get(9).price.to_string(), "15");
    assert_eq!(book.ask.get(0).price.to_string(), "1");
    assert_eq!(book.ask.get(9).price.to_string(), "10");
}

#[test]
fn fragments_yield_what_the_whole_frame_yields() {
    let mut whole = connected("binance", "btcusdt");
    let expected = whole
        .next(Frame::Text(DEPTH.as_bytes().to_vec()))
        .unwrap()
        .unwrap();
    for cuts in [vec![10], vec![1, 2, 3], vec![30, 31, 60], vec![0, 5]] {
        let mut driver = connected("binance", "btcusdt");
        let bytes = DEPTH.as_bytes();
        let mut from = 0;
        for (i, cut) in cuts.iter().enumerate() {
            let part = bytes[from..*cut].to_vec();
            let frame = if i == 0 {
                Frame::FirstText(part)
            } else {
                Frame::Continue(part)
            };
            assert_eq!(driver.next(frame), Ok(None));
            from = *cut;
        }
        let mut book = driver
            .next(Frame::Last(bytes[from..].to_vec()))
            .unwrap()
            .unwrap();
        book.timestamp = expected.timestamp;
        assert_eq!(book, expected);
        assert_eq!(driver.cache, "");
    }
}

#[test]
fn control_frames_and_close() {
    let mut driver = connected("binance", "btcusdt");
    assert_eq!(driver.next(Frame::Ping), Ok(None));
    assert_eq!(driver.next(Frame::Pong), Ok(None));
    assert_eq!(driver.next(Frame::Close), Err(FeedError::Closed));
    assert_eq!(
        driver.next(Frame::Text(vec![0xff, 0xfe])),
        Err(FeedError::BadText)
    );
    assert_eq!(
        driver.next(Frame::Text(b"{\"id\": 1, \"result\": null}".to_vec())),
        Ok(None)
    );
    assert_eq!(
        driver.next(Frame::Text(b"no json".to_vec())),
        Err(FeedError::Malformed)
    );
    assert!(!FeedError::Malformed.ends_session());
    assert!(!FeedError::BadDecimal.ends_session());
    assert!(FeedError::Closed.ends_session());
    assert!(FeedError::BadText.ends_session());
}

#[test]
fn exchanges_without_timers_have_nothing_due() {
    let mut driver = connected("kraken", "XBT/USD");
    let due = driver.tick(100).unwrap();
    assert_eq!(due.heartbeat, None);
    assert!(!due.reconnect);
    let due = driver.tick(100000).unwrap();
    assert_eq!(due.heartbeat, None);
    assert!(!due.reconnect);
    assert_eq!(driver.heartbeat_ts, None);
    assert_eq!(driver.reconnect_ts, None);
}

#[test]
fn running_heartbeat_timer_comes_due_after_its_interval() {
    let mut driver = connected("kraken", "XBT/USD");
    driver.heartbeat_ts = Some(10);
    driver.reconnect_ts = Some(10);
    let due = driver.tick(10).unwrap();
    assert_eq!(due.heartbeat, None);
    assert!(!due.reconnect);
    let due = driver.tick(11).unwrap();
    assert_eq!(due.heartbeat, Some(String::new()));
    assert!(due.reconnect);
    assert_eq!(driver.heartbeat_ts, Some(11));
    assert_eq!(driver.reconnect_ts, Some(10));
}

#[test]
fn clear_drops_the_books_of_the_parser() {
    let mut driver = connected("kraken", "XBT/USD");
    driver
        .next(Frame::Text(
            br#"[1, {"bs": [["1", "1", "0"]]}, "book-25", "XBT/USD"]"#.to_vec(),
        ))
        .unwrap();
    assert_eq!(driver.parser.as_ref().unwrap().books.len(), 1);
    assert_eq!(driver.clear(), Ok(()));
    assert_eq!(driver.parser.as_ref().unwrap().books.len(), 0);
    let mut unknown = Exchange::new("nowhere");
    assert_eq!(unknown.clear(), Err(FeedError::UnsupportedExchange));
}

#[test]
fn poll_plans_the_requests_of_the_first_pair() {
    let mut driver = Exchange::new("btcmarkets");
    assert_eq!(driver.poll().err(), Some(FeedError::NoPairs));
    driver
        .connect(vec![setting("BTC-AUD", 0, false), setting("ETH-AUD", 9, false)])
        .unwrap();
    let plan = driver.poll().unwrap();
    assert_eq!(plan.wait_secs, 1);
    assert_eq!(
        plan.requests,
        vec![
            "https://api.btcmarkets.net/v3/markets/BTC-AUD/orderbook",
            "https://api.btcmarkets.net/v3/markets/BTC-AUD/ticker",
        ]
    );
    let mut driver = Exchange::new("binance");
    driver.connect(vec![setting("btcusdt", 2, false)]).unwrap();
    assert_eq!(driver.poll().err(), Some(FeedError::UnsupportedExchange));
}

#[test]
fn polled_answers_yield_a_trimmed_book() {
    let mut driver = Exchange::new("btcmarkets");
    driver.connect(vec![setting("BTC-AUD", 0, false)]).unwrap();
    let mut levels = Vec::new();
    for p in 1..=12 {
        levels.push(format!(r#"["{}", "1"]"#, p));
    }
    let orderbook = format!(r#"{{"asks": [{}], "bids": []}}"#, levels.join(","));
    let ticker = r#"{"volume24h": "3.5", "lastPrice": "7"}"#.to_string();
    let mut window = TradeWindow::new();
    let book = driver
        .polled(
            &mut window,
            &vec![orderbook, ticker],
            Moment { secs: 0, nanos: 0 },
        )
        .unwrap()
        .unwrap();
    assert_eq!(book.ask.len(), 10);
    assert_eq!(book.ask.get(9).price.to_string(), "10");
    assert_eq!(book.volume.to_string(), "3.5");
    assert_eq!(
        driver.polled(&mut window, &vec![], Moment { secs: 0, nanos: 0 }),
        Err(FeedError::Malformed)
    );
}
