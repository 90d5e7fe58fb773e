//! The exchanges that are polled over a request/response endpoint.

use crate::apitree::btcmarkets::{tick, ticked};
use crate::apitree::trades::{
    since, trades_view, volume_within, with_trades, Moment, Trade, TradeView, TradeWindow,
};
use crate::apitree::wire::{
    fill_both, filled_both, levels_member, number_member, read_decimal, read_levels_member,
    read_number_member, read_text_member, text_member, RawLevelView, Shape,
};
use crate::decimal::decimal_read;
use crate::error::FeedError;
use crate::json::{json_of_text, Json};
use crate::orderbook::{Book, Orderbook};
use crate::text::{chain, halves, same_text, split_in_two};
use vstd::prelude::*;

verus! {

/// Which exchange's polling endpoint is asked and read.
#[derive(Clone, Copy, Debug, PartialEq, Eq, Structural)]
pub enum RestKind {
    IndependentReserve,
    BtcMarkets,
    Coinspot,
}

/// What is known of an exchange's polling endpoint.
#[derive(Debug, PartialEq)]
pub struct Api {
    /// The address that the paths of the requests are appended to.
    pub endpoint: &'static str,
    /// Which requests build a book, and how their answers are read.
    pub orderbook: RestKind,
}

/// The mathematical reading of an [`Api`].
pub struct ApiView {
    pub endpoint: Seq<char>,
    pub orderbook: RestKind,
}

impl View for Api {
    type V = ApiView;

    open spec fn view(&self) -> ApiView {
        ApiView { endpoint: self.endpoint@, orderbook: self.orderbook }
    }
}

/// The table of the exchanges that are polled.
pub open spec fn rest_entry(name: Seq<char>) -> Option<ApiView> {
    if name == "independentreserve"@ {
        Some(
            ApiView {
                endpoint: "https://api.independentreserve.com"@,
                orderbook: RestKind::IndependentReserve,
            },
        )
    } else if name == "btcmarkets"@ {
        Some(ApiView { endpoint: "https://api.btcmarkets.net"@, orderbook: RestKind::BtcMarkets })
    } else if name == "coinspot"@ {
        Some(ApiView { endpoint: "https://www.coinspot.com.au"@, orderbook: RestKind::Coinspot })
    } else {
        None
    }
}

/// The table of the exchanges that are polled, as a value to look names up
/// in.
#[derive(Clone, Copy, Debug, PartialEq, Eq, Structural)]
pub struct Dummy {}

impl Dummy {
    /// The entry of the exchange `name`.
    pub fn get(&self, name: &str) -> (r: Option<Api>)
        ensures
            r is Some == rest_entry(name@) is Some,
            r matches Some(api) ==> rest_entry(name@) == Some(api@),
    {
        if same_text(name, "independentreserve") {
            Some(
                Api {
                    endpoint: "https://api.independentreserve.com",
                    orderbook: RestKind::IndependentReserve,
                },
            )
        } else if same_text(name, "btcmarkets") {
            Some(Api { endpoint: "https://api.btcmarkets.net", orderbook: RestKind::BtcMarkets })
        } else if same_text(name, "coinspot") {
            Some(Api { endpoint: "https://www.coinspot.com.au", orderbook: RestKind::Coinspot })
        } else {
            None
        }
    }
}

/// How CoinSpot writes the time of a trade.
pub const SOLD_DATE_FORMAT: &'static str = "%Y-%m-%dT%H:%M:%S.%fZ";

/// The requests that build a book of `pair`, in the order in which their
/// answers are read; `None` where the pair is not written as the exchange
/// needs it.
///
/// BTC Markets is asked for the order book and the ticker of the market.
/// Independent Reserve is asked for the order book and the market summary
/// of the two currencies that the pair names with a `-` between them.
/// CoinSpot is asked for the open orders of the pair, the latest price, of
/// the coin alone where the market behind the `/` is `AUD`, and the
/// completed orders.
pub open spec fn requests_of(api: ApiView, pair: Seq<char>) -> Option<Seq<Seq<char>>> {
    match api.orderbook {
        RestKind::BtcMarkets => Some(
            seq![
                api.endpoint + "/v3/markets/"@ + pair + "/orderbook"@,
                api.endpoint + "/v3/markets/"@ + pair + "/ticker"@,
            ],
        ),
        RestKind::IndependentReserve => match halves(pair, '-') {
            Some((primary, secondary)) => Some(
                seq![
                    api.endpoint + "/Public/GetOrderbook?primaryCurrencyCode="@ + primary
                        + "&secondaryCurrencyCode="@ + secondary,
                    api.endpoint + "/Public/GetMarketSummary?primaryCurrencyCode="@ + primary
                        + "&secondaryCurrencyCode="@ + secondary,
                ],
            ),
            None => None,
        },
        RestKind::Coinspot => match halves(pair, '/') {
            Some((coin, market)) => Some(
                seq![
                    api.endpoint + "/pubapi/v2/orders/open/"@ + pair,
                    api.endpoint + "/pubapi/v2/latest/"@ + (if market == "AUD"@ {
                        coin
                    } else {
                        pair
                    }),
                    api.endpoint + "/pubapi/v2/orders/completed/"@ + pair,
                ],
            ),
            None => None,
        },
    }
}

/// The book that the answers of BTC Markets, read as JSON, give: the bids
/// and the asks of the order book are inserted into a fresh book, then the
/// last price and the volume of the ticker are set.
pub open spec fn btcmarkets_built(shot: Json, sum: Json) -> Result<Book, FeedError> {
    match (
        levels_member(shot, "asks"@, true, Shape::Pair),
        levels_member(shot, "bids"@, true, Shape::Pair),
        text_member(sum, "volume24h"@, true),
        text_member(sum, "lastPrice"@, true),
    ) {
        (Some(asks), Some(bids), Some(volume), Some(last_price)) => {
            let with_levels = filled_both(Book::fresh("btcmarkets"@), bids, asks);
            let with_tick = ticked(with_levels.0, last_price, volume);
            if with_levels.1 && with_tick.1 {
                Ok(with_tick.0)
            } else {
                Err(FeedError::BadDecimal)
            }
        },
        _ => Err(FeedError::Malformed),
    }
}

/// The book that the answers of BTC Markets give: [`btcmarkets_built`] of
/// their JSON, and an error where one of them is no JSON.
pub open spec fn btcmarkets_polled(orderbook: Seq<char>, ticker: Seq<char>) -> Result<
    Book,
    FeedError,
> {
    match (json_of_text(orderbook), json_of_text(ticker)) {
        (Some(shot), Some(sum)) => btcmarkets_built(shot, sum),
        _ => Err(FeedError::Malformed),
    }
}

/// The book that the answers of Independent Reserve, read as JSON, give: the
/// buy orders and the sell orders are inserted into a fresh book, then the
/// last price and the day's volume of the market summary are set, each
/// number in the text that the JSON value holds it in.
pub open spec fn indreserve_built(shot: Json, sum: Json) -> Result<Book, FeedError> {
    match (
        levels_member(shot, "BuyOrders"@, true, Shape::PriceVolume),
        levels_member(shot, "SellOrders"@, true, Shape::PriceVolume),
        number_member(sum, "LastPrice"@),
        number_member(sum, "DayVolumeXbt"@),
    ) {
        (Some(bids), Some(asks), Some(last_price), Some(volume)) => {
            let with_levels = filled_both(Book::fresh("independentreserve"@), bids, asks);
            let with_tick = ticked(with_levels.0, last_price, volume);
            if with_levels.1 && with_tick.1 {
                Ok(with_tick.0)
            } else {
                Err(FeedError::BadDecimal)
            }
        },
        _ => Err(FeedError::Malformed),
    }
}

/// The book that the answers of Independent Reserve give:
/// [`indreserve_built`] of their JSON, and an error where one of them is no
/// JSON.
pub open spec fn indreserve_polled(orderbook: Seq<char>, summary: Seq<char>) -> Result<
    Book,
    FeedError,
> {
    match (json_of_text(orderbook), json_of_text(summary)) {
        (Some(shot), Some(sum)) => indreserve_built(shot, sum),
        _ => Err(FeedError::Malformed),
    }
}

/// The moment that `chrono` reads a text as under a format; `None` where it
/// rejects the text.
pub uninterp spec fn moment_of_text(text: Seq<char>, format: Seq<char>) -> Option<Moment>;

/// `chrono::NaiveDateTime::parse_from_str`: the date and time, taken as the
/// seconds since the Unix epoch and the nanoseconds within the second, is
/// what [`moment_of_text`] names; a rejected text gives `None`.
#[verifier::external_body]
fn text_to_moment(text: &str, format: &str) -> (r: Option<Moment>)
    ensures
        r == moment_of_text(text@, format@),
{
    match chrono::NaiveDateTime::parse_from_str(text, format) {
        Ok(t) => Some(
            Moment { secs: t.and_utc().timestamp(), nanos: t.and_utc().timestamp_subsec_nanos() },
        ),
        Err(_) => None,
    }
}

/// The trade that an object spells: its number `amount`, which must be a
/// decimal, and its string `solddate`, which must be a date and time.
pub open spec fn trade_of(item: Json) -> Option<TradeView> {
    match (number_member(item, "amount"@), text_member(item, "solddate"@, true)) {
        (Some(amount), Some(sold)) => match (
            decimal_read(amount),
            moment_of_text(sold, SOLD_DATE_FORMAT@),
        ) {
            (Some(a), Some(at)) => Some(TradeView { at, amount: a }),
            _ => None,
        },
        _ => None,
    }
}

/// The trades that the items spell; `None` where one of them spells none.
pub open spec fn trades_of(items: Seq<Json>) -> Option<Seq<TradeView>>
    decreases items.len(),
{
    if items.len() == 0 {
        Some(Seq::empty())
    } else {
        match (trades_of(items.drop_last()), trade_of(items.last())) {
            (Some(front), Some(last)) => Some(front.push(last)),
            _ => None,
        }
    }
}

/// A list with an item that spells no trade spells no trades.
pub proof fn lemma_trades_of_fail(items: Seq<Json>, i: int)
    requires
        0 <= i < items.len(),
        trade_of(items[i]) is None,
    ensures
        trades_of(items) is None,
    decreases items.len(),
{
    if i < items.len() - 1 {
        assert(items.drop_last()[i] == items[i]);
        lemma_trades_of_fail(items.drop_last(), i);
    }
}

/// The trades of the array member `buyorders`, which must be there.
pub open spec fn trades_member(j: Json) -> Option<Seq<TradeView>> {
    match j.member("buyorders"@) {
        Some(v) => match v.items() {
            Some(items) => trades_of(items),
            None => None,
        },
        None => None,
    }
}

/// The trade that `item` spells, as [`trade_of`] reads it.
fn read_trade(item: &Json) -> (r: Option<Trade>)
    ensures
        r is Some == trade_of(*item) is Some,
        r matches Some(t) ==> trade_of(*item) == Some(t@),
{
    let amount = match read_number_member(item, "amount") {
        Some(t) => t,
        None => {
            return None;
        },
    };
    let sold = match read_text_member(item, "solddate", true) {
        Some(t) => t,
        None => {
            return None;
        },
    };
    let amount = match read_decimal(amount.as_str()) {
        Ok(d) => d,
        Err(_) => {
            return None;
        },
    };
    match text_to_moment(sold.as_str(), SOLD_DATE_FORMAT) {
        Some(at) => Some(Trade { at, amount }),
        None => None,
    }
}

/// The trades of the member `buyorders` of `j`, as [`trades_member`] reads
/// them.
fn read_trades_member(j: &Json) -> (r: Option<Vec<Trade>>)
    ensures
        r is Some == trades_member(*j) is Some,
        r matches Some(v) ==> trades_member(*j) == Some(trades_view(v@)),
{
    match j.get("buyorders") {
        Some(v) => match v.as_array() {
            Some(items) => {
                let mut out: Vec<Trade> = Vec::new();
                let mut i: usize = 0;
                assert(items@.take(0) =~= Seq::<Json>::empty());
                assert(trades_view(out@) =~= Seq::<TradeView>::empty());
                while i < items.len()
                    invariant
                        i <= items.len(),
                        v.items() == Some(items@),
                        j.member("buyorders"@) == Some(*v),
                        trades_of(items@.take(i as int)) == Some(trades_view(out@)),
                    decreases items.len() - i,
                {
                    let ghost next = items@.take(i + 1);
                    assert(next.drop_last() =~= items@.take(i as int));
                    assert(next.last() == items@[i as int]);
                    match read_trade(&items[i]) {
                        Some(trade) => {
                            let ghost before = trades_view(out@);
                            out.push(trade);
                            assert(trades_view(out@) =~= before.push(trade@));
                        },
                        None => {
                            proof {
                                lemma_trades_of_fail(items@, i as int);
                            }
                            return None;
                        },
                    }
                    i += 1;
                }
                assert(items@.take(i as int) =~= items@);
                Some(out)
            },
            None => None,
        },
        None => None,
    }
}

/// What CoinSpot's answers hold, as far as a book is built from it.
pub struct CoinspotAnswers {
    pub orders_status: Seq<char>,
    pub bids: Seq<RawLevelView>,
    pub asks: Seq<RawLevelView>,
    pub price_status: Seq<char>,
    pub last: Seq<char>,
    pub trades_status: Seq<char>,
    pub trades: Seq<TradeView>,
}

/// The member `last` of the member `prices`, a string that must be there.
pub open spec fn latest_price(j: Json) -> Option<Seq<char>> {
    match j.member("prices"@) {
        Some(prices) => text_member(prices, "last"@, true),
        None => None,
    }
}

/// What CoinSpot's answers, read as JSON, hold; `None` where one of them has
/// not the shape of its kind. The open orders have the strings `status` and
/// `message` and the lists `buyorders` and `sellorders` of `{amount, rate}`
/// number pairs; the latest price has the string `status` and, in
/// `prices`, the string `last`; the completed orders have the string
/// `status` and the list `buyorders` of trades. A `message` of the latter
/// two must be a string where it is there.
pub open spec fn coinspot_answers(o: Json, p: Json, t: Json) -> Option<CoinspotAnswers> {
    match (
        (
            text_member(o, "status"@, true),
            text_member(o, "message"@, true),
            levels_member(o, "buyorders"@, true, Shape::AmountRate),
            levels_member(o, "sellorders"@, true, Shape::AmountRate),
        ),
        (text_member(p, "status"@, true), text_member(p, "message"@, false), latest_price(p)),
        (text_member(t, "status"@, true), text_member(t, "message"@, false), trades_member(t)),
    ) {
        (
            (Some(orders_status), Some(_), Some(bids), Some(asks)),
            (Some(price_status), Some(_), Some(last)),
            (Some(trades_status), Some(_), Some(trades)),
        ) => Some(
            CoinspotAnswers { orders_status, bids, asks, price_status, last, trades_status, trades },
        ),
        _ => None,
    }
}

/// The window of trades after CoinSpot's answers, read as JSON, are worked
/// in at the time `now`, and the book that they give.
///
/// Answers that have not the shape of their kind, or completed orders whose
/// status is not `ok`, are an error that leaves the window alone. Otherwise
/// the trades are recorded, the volume is the sum of the trades of the last
/// 24 hours, and the trades before that are dropped. The open orders, whose
/// status must be `ok`, give the bids and the asks; the latest price, whose
/// status must be `ok`, gives the last price.
pub open spec fn coinspot_built(
    window: Seq<TradeView>,
    orders: Json,
    price: Json,
    trades: Json,
    now: Moment,
) -> (Seq<TradeView>, Result<Book, FeedError>) {
    match coinspot_answers(orders, price, trades) {
        None => (window, Err(FeedError::Malformed)),
        Some(a) => if a.trades_status != "ok"@ {
            (window, Err(FeedError::BadStatus))
        } else {
            let recorded = with_trades(window, a.trades);
            let past = now.day_before();
            let kept = since(recorded, past);
            let start = Book {
                volume: volume_within(recorded, past, now),
                ..Book::fresh("coinspot"@)
            };
            let with_levels = filled_both(start, a.bids, a.asks);
            if a.orders_status != "ok"@ {
                (kept, Err(FeedError::BadStatus))
            } else if !with_levels.1 {
                (kept, Err(FeedError::BadDecimal))
            } else if a.price_status != "ok"@ {
                (kept, Err(FeedError::BadStatus))
            } else {
                match decimal_read(a.last) {
                    Some(p) => (kept, Ok(Book { last_price: p, ..with_levels.0 })),
                    None => (kept, Err(FeedError::BadDecimal)),
                }
            }
        },
    }
}

/// The window of trades after CoinSpot's answers are read at the time `now`,
/// and the book that they give: [`coinspot_built`] of their JSON, and an
/// error that leaves the window alone where one of them is no JSON.
pub open spec fn coinspot_polled(
    window: Seq<TradeView>,
    orders: Seq<char>,
    price: Seq<char>,
    trades: Seq<char>,
    now: Moment,
) -> (Seq<TradeView>, Result<Book, FeedError>) {
    match (json_of_text(orders), json_of_text(price), json_of_text(trades)) {
        (Some(o), Some(p), Some(t)) => coinspot_built(window, o, p, t, now),
        _ => (window, Err(FeedError::Malformed)),
    }
}

/// The window after the answers of an exchange are read at the time `now`,
/// and the book that they give. Only CoinSpot keeps trades in the window.
/// Answers that are fewer than the exchange's requests are an error.
pub open spec fn polled(
    kind: RestKind,
    window: Seq<TradeView>,
    answers: Seq<Seq<char>>,
    now: Moment,
) -> (Seq<TradeView>, Result<Book, FeedError>) {
    match kind {
        RestKind::BtcMarkets => if answers.len() < 2 {
            (window, Err(FeedError::Malformed))
        } else {
            (window, btcmarkets_polled(answers[0], answers[1]))
        },
        RestKind::IndependentReserve => if answers.len() < 2 {
            (window, Err(FeedError::Malformed))
        } else {
            (window, indreserve_polled(answers[0], answers[1]))
        },
        RestKind::Coinspot => if answers.len() < 3 {
            (window, Err(FeedError::Malformed))
        } else {
            coinspot_polled(window, answers[0], answers[1], answers[2], now)
        },
    }
}

/// The reading of a book that may have failed.
pub open spec fn book_of(r: Result<Orderbook, FeedError>) -> Result<Book, FeedError> {
    match r {
        Ok(book) => Ok(book@),
        Err(e) => Err(e),
    }
}

/// Builds the book of BTC Markets from the answers to its two requests.
pub fn btcmarkets_orderbook(orderbook: &str, ticker: &str) -> (r: Result<Orderbook, FeedError>)
    ensures
        book_of(r) == btcmarkets_polled(orderbook@, ticker@),
{
    let shot = match Json::parse(orderbook) {
        Some(j) => j,
        None => {
            return Err(FeedError::Malformed);
        },
    };
    let sum = match Json::parse(ticker) {
        Some(j) => j,
        None => {
            return Err(FeedError::Malformed);
        },
    };
    btcmarkets_book(&shot, &sum)
}

/// Builds the book of BTC Markets from the answers to its two requests, read
/// as JSON.
pub fn btcmarkets_book(shot: &Json, sum: &Json) -> (r: Result<Orderbook, FeedError>)
    ensures
        book_of(r) == btcmarkets_built(*shot, *sum),
{
    let asks = match read_levels_member(shot, "asks", true, Shape::Pair) {
        Some(l) => l,
        None => {
            return Err(FeedError::Malformed);
        },
    };
    let bids = match read_levels_member(shot, "bids", true, Shape::Pair) {
        Some(l) => l,
        None => {
            return Err(FeedError::Malformed);
        },
    };
    let volume = match read_text_member(sum, "volume24h", true) {
        Some(t) => t,
        None => {
            return Err(FeedError::Malformed);
        },
    };
    let last_price = match read_text_member(sum, "lastPrice", true) {
        Some(t) => t,
        None => {
            return Err(FeedError::Malformed);
        },
    };
    let mut ob = Orderbook::new("btcmarkets");
    if !fill_both(&mut ob, &bids, &asks) {
        return Err(FeedError::BadDecimal);
    }
    if !tick(&mut ob, last_price.as_str(), volume.as_str()) {
        return Err(FeedError::BadDecimal);
    }
    Ok(ob)
}

/// Builds the book of Independent Reserve from the answers to its two
/// requests.
pub fn independentreserve_orderbook(orderbook: &str, summary: &str) -> (r: Result<
    Orderbook,
    FeedError,
>)
    ensures
        book_of(r) == indreserve_polled(orderbook@, summary@),
{
    let shot = match Json::parse(orderbook) {
        Some(j) => j,
        None => {
            return Err(FeedError::Malformed);
        },
    };
    let sum = match Json::parse(summary) {
        Some(j) => j,
        None => {
            return Err(FeedError::Malformed);
        },
    };
    independentreserve_book(&shot, &sum)
}

/// Builds the book of Independent Reserve from the answers to its two
/// requests, read as JSON.
pub fn independentreserve_book(shot: &Json, sum: &Json) -> (r: Result<Orderbook, FeedError>)
    ensures
        book_of(r) == indreserve_built(*shot, *sum),
{
    let bids = match read_levels_member(shot, "BuyOrders", true, Shape::PriceVolume) {
        Some(l) => l,
        None => {
            return Err(FeedError::Malformed);
        },
    };
    let asks = match read_levels_member(shot, "SellOrders", true, Shape::PriceVolume) {
        Some(l) => l,
        None => {
            return Err(FeedError::Malformed);
        },
    };
    let last_price = match read_number_member(sum, "LastPrice") {
        Some(t) => t,
        None => {
            return Err(FeedError::Malformed);
        },
    };
    let volume = match read_number_member(sum, "DayVolumeXbt") {
        Some(t) => t,
        None => {
            return Err(FeedError::Malformed);
        },
    };
    let mut ob = Orderbook::new("independentreserve");
    if !fill_both(&mut ob, &bids, &asks) {
        return Err(FeedError::BadDecimal);
    }
    if !tick(&mut ob, last_price.as_str(), volume.as_str()) {
        return Err(FeedError::BadDecimal);
    }
    Ok(ob)
}

/// Records the trades in the window, first one first.
fn record_all(window: &mut TradeWindow, trades: Vec<Trade>)
    ensures
        final(window)@ == with_trades(old(window)@, trades_view(trades@)),
{
    let ghost all = trades_view(trades@);
    let mut trades = trades;
    let ghost mut done: Seq<TradeView> = Seq::empty();
    while trades.len() > 0
        invariant
            done + trades_view(trades@) == all,
            window@ == with_trades(old(window)@, done),
        decreases trades.len(),
    {
        let ghost rest = trades_view(trades@);
        let trade = trades.remove(0);
        proof {
            assert(trades_view(trades@) =~= rest.skip(1));
            assert(trade@ == rest[0]);
            let next = done.push(trade@);
            assert(next.drop_last() =~= done);
            assert(next + rest.skip(1) =~= done + rest);
            done = next;
        }
        window.record(trade);
    }
    assert(done + trades_view(trades@) =~= done);
}

/// Builds the book of CoinSpot from the answers to its three requests and
/// the trades that the window holds, at the time `now`.
pub fn coinspot_orderbook(
    window: &mut TradeWindow,
    orders: &str,
    price: &str,
    trades: &str,
    now: Moment,
) -> (r: Result<Orderbook, FeedError>)
    ensures
        (final(window)@, book_of(r)) == coinspot_polled(old(window)@, orders@, price@, trades@, now),
{
    let o = match Json::parse(orders) {
        Some(j) => j,
        None => {
            return Err(FeedError::Malformed);
        },
    };
    let p = match Json::parse(price) {
        Some(j) => j,
        None => {
            return Err(FeedError::Malformed);
        },
    };
    let t = match Json::parse(trades) {
        Some(j) => j,
        None => {
            return Err(FeedError::Malformed);
        },
    };
    coinspot_book(window, &o, &p, &t, now)
}

/// Builds the book of CoinSpot from the answers to its three requests, read
/// as JSON, and the trades that the window holds, at the time `now`.
pub fn coinspot_book(
    window: &mut TradeWindow,
    o: &Json,
    p: &Json,
    t: &Json,
    now: Moment,
) -> (r: Result<Orderbook, FeedError>)
    ensures
        (final(window)@, book_of(r)) == coinspot_built(old(window)@, *o, *p, *t, now),
{
    let orders_status = match read_text_member(o, "status", true) {
        Some(t) => t,
        None => {
            return Err(FeedError::Malformed);
        },
    };
    if read_text_member(o, "message", true).is_none() {
        return Err(FeedError::Malformed);
    }
    let bids = match read_levels_member(o, "buyorders", true, Shape::AmountRate) {
        Some(l) => l,
        None => {
            return Err(FeedError::Malformed);
        },
    };
    let asks = match read_levels_member(o, "sellorders", true, Shape::AmountRate) {
        Some(l) => l,
        None => {
            return Err(FeedError::Malformed);
        },
    };
    let price_status = match read_text_member(p, "status", true) {
        Some(t) => t,
        None => {
            return Err(FeedError::Malformed);
        },
    };
    if read_text_member(p, "message", false).is_none() {
        return Err(FeedError::Malformed);
    }
    let last = match p.get("prices") {
        Some(prices) => match read_text_member(prices, "last", true) {
            Some(t) => t,
            None => {
                return Err(FeedError::Malformed);
            },
        },
        None => {
            return Err(FeedError::Malformed);
        },
    };
    let trades_status = match read_text_member(t, "status", true) {
        Some(t) => t,
        None => {
            return Err(FeedError::Malformed);
        },
    };
    if read_text_member(t, "message", false).is_none() {
        return Err(FeedError::Malformed);
    }
    let sold = match read_trades_member(t) {
        Some(l) => l,
        None => {
            return Err(FeedError::Malformed);
        },
    };
    if !same_text(trades_status.as_str(), "ok") {
        return Err(FeedError::BadStatus);
    }
    record_all(window, sold);
    let past = now.a_day_before();
    let mut ob = Orderbook::new("coinspot");
    ob.volume = window.volume(&past, &now);
    window.prune(&past);
    if !same_text(orders_status.as_str(), "ok") {
        return Err(FeedError::BadStatus);
    }
    if !fill_both(&mut ob, &bids, &asks) {
        return Err(FeedError::BadDecimal);
    }
    if !same_text(price_status.as_str(), "ok") {
        return Err(FeedError::BadStatus);
    }
    match read_decimal(last.as_str()) {
        Ok(d) => {
            ob.last_price = d;
            Ok(ob)
        },
        Err(e) => Err(e),
    }
}

impl Api {
    /// The requests that build a book of `pair`, in the order in which
    /// their answers are to be handed to [`Api::book`].
    pub fn requests(&self, pair: &str) -> (r: Result<Vec<String>, FeedError>)
        ensures
            r is Ok == requests_of(self@, pair@) is Some,
            r matches Ok(urls) ==> requests_of(self@, pair@) == Some(
                urls@.map_values(|s: String| s@),
            ),
            r matches Err(e) ==> e == FeedError::BadPair,
    {
        let mut urls: Vec<String> = Vec::new();
        match self.orderbook {
            RestKind::BtcMarkets => {
                urls.push(chain(self.endpoint, "/v3/markets/", pair, "/orderbook"));
                urls.push(chain(self.endpoint, "/v3/markets/", pair, "/ticker"));
                assert(urls@.map_values(|s: String| s@) =~= requests_of(self@, pair@)->0);
                Ok(urls)
            },
            RestKind::IndependentReserve => match split_in_two(pair, '-') {
                Some((primary, secondary)) => {
                    let mut first = chain(
                        self.endpoint,
                        "/Public/GetOrderbook?primaryCurrencyCode=",
                        primary.as_str(),
                        "&secondaryCurrencyCode=",
                    );
                    first.append(secondary.as_str());
                    let mut second = chain(
                        self.endpoint,
                        "/Public/GetMarketSummary?primaryCurrencyCode=",
                        primary.as_str(),
                        "&secondaryCurrencyCode=",
                    );
                    second.append(secondary.as_str());
                    urls.push(first);
                    urls.push(second);
                    assert(urls@.map_values(|s: String| s@) =~= requests_of(self@, pair@)->0);
                    Ok(urls)
                },
                None => Err(FeedError::BadPair),
            },
            RestKind::Coinspot => match split_in_two(pair, '/') {
                Some((coin, market)) => {
                    urls.push(chain(self.endpoint, "/pubapi/v2/orders/open/", pair, ""));
                    if same_text(market.as_str(), "AUD") {
                        urls.push(chain(self.endpoint, "/pubapi/v2/latest/", coin.as_str(), ""));
                    } else {
                        urls.push(chain(self.endpoint, "/pubapi/v2/latest/", pair, ""));
                    }
                    urls.push(chain(self.endpoint, "/pubapi/v2/orders/completed/", pair, ""));
                    proof {
                        reveal_strlit("");
                        let want = requests_of(self@, pair@)->0;
                        assert(urls@[0]@ =~= want[0]);
                        assert(urls@[1]@ =~= want[1]);
                        assert(urls@[2]@ =~= want[2]);
                        assert(urls@.map_values(|s: String| s@) =~= want);
                    }
                    Ok(urls)
                },
                None => Err(FeedError::BadPair),
            },
        }
    }

    /// Builds a book from the answers to the requests, at the time `now`.
    /// The window holds the trades from which CoinSpot's volume is summed
    /// up; the other exchanges leave it alone.
    pub fn book(&self, window: &mut TradeWindow, answers: &Vec<String>, now: Moment) -> (r: Result<
        Orderbook,
        FeedError,
    >)
        ensures
            (final(window)@, book_of(r)) == polled(
                self.orderbook,
                old(window)@,
                answers@.map_values(|s: String| s@),
                now,
            ),
    {
        match self.orderbook {
            RestKind::BtcMarkets => {
                if answers.len() < 2 {
                    return Err(FeedError::Malformed);
                }
                btcmarkets_orderbook(answers[0].as_str(), answers[1].as_str())
            },
            RestKind::IndependentReserve => {
                if answers.len() < 2 {
                    return Err(FeedError::Malformed);
                }
                independentreserve_orderbook(answers[0].as_str(), answers[1].as_str())
            },
            RestKind::Coinspot => {
                if answers.len() < 3 {
                    return Err(FeedError::Malformed);
                }
                coinspot_orderbook(
                    window,
                    answers[0].as_str(),
                    answers[1].as_str(),
                    answers[2].as_str(),
                    now,
                )
            },
        }
    }
}

} // verus!
