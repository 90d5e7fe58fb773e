//! BTC Markets: an `orderbook` message carries the whole book of a market, a
//! `tick` message its last price and 24h volume.

use crate::apitree::channels::{
    book_or_fresh, books_view, keep, settle, settled, take_or_fresh, with_book, Books,
};
use crate::apitree::wire::{
    fill_both, filled_both, levels_member, read_decimal, read_levels_member, read_text_member,
    reading_of, text_member, Reading, Shape,
};
use crate::decimal::decimal_read;
use crate::error::FeedError;
use crate::json::{json_of_text, Json};
use crate::names::NameMap;
use crate::orderbook::{Book, Orderbook};
use crate::text::same_text;
use vstd::prelude::*;

verus! {

/// The book after a tick: the last price is set first and the volume second,
/// and the work stops at the first of the two that is no decimal.
pub open spec fn ticked(book: Book, last_price: Seq<char>, volume: Seq<char>) -> (Book, bool) {
    match decimal_read(last_price) {
        Some(p) => match decimal_read(volume) {
            Some(v) => (Book { last_price: p, volume: v, ..book }, true),
            None => (Book { last_price: p, ..book }, false),
        },
        None => (book, false),
    }
}

/// What a BTC Markets frame, read as JSON, does to the books and yields.
///
/// The frame is an object with the string `messageType` and the optional
/// members `marketId`, `lastPrice` and `volume24h`, strings, and `bids` and
/// `asks`, lists of `[price, quantity]` string pairs. The market gets a book
/// if it has none. An `orderbook` message empties the market's book and
/// inserts its bids, then its asks; a `tick` message sets the last price and
/// the volume; both emit the book. Any other message yields nothing.
pub open spec fn btcmarkets_step(books: Books, j: Json) -> (Books, Reading) {
    match (
        levels_member(j, "bids"@, false, Shape::Pair),
        levels_member(j, "asks"@, false, Shape::Pair),
        text_member(j, "lastPrice"@, false),
        text_member(j, "volume24h"@, false),
        text_member(j, "messageType"@, true),
        text_member(j, "marketId"@, false),
    ) {
        (Some(bids), Some(asks), Some(last_price), Some(volume), Some(kind), Some(market)) => {
            let book = book_or_fresh(books, market, "btcmarkets"@);
            if kind == "orderbook"@ {
                settled(books, market, filled_both(book.emptied(), bids, asks))
            } else if kind == "tick"@ {
                settled(books, market, ticked(book, last_price, volume))
            } else {
                (with_book(books, market, "btcmarkets"@), Ok(None))
            }
        },
        _ => (books, Err(FeedError::Malformed)),
    }
}

/// What a BTC Markets frame does to the books and yields:
/// [`btcmarkets_step`] of its JSON, and an error that leaves the books alone
/// for a frame that is no JSON.
pub open spec fn btcmarkets_read(books: Books, raw: Seq<char>) -> (Books, Reading) {
    match json_of_text(raw) {
        Some(j) => btcmarkets_step(books, j),
        None => (books, Err(FeedError::Malformed)),
    }
}

/// Sets the last price and then the volume of `book`; stops at the first of
/// the two that is no decimal and tells whether both were set.
pub fn tick(book: &mut Orderbook, last_price: &str, volume: &str) -> (done: bool)
    ensures
        (final(book)@, done) == ticked(old(book)@, last_price@, volume@),
        final(book).timestamp == old(book).timestamp,
{
    match read_decimal(last_price) {
        Ok(p) => {
            book.last_price = p;
        },
        Err(_) => {
            return false;
        },
    }
    match read_decimal(volume) {
        Ok(v) => {
            book.volume = v;
        },
        Err(_) => {
            return false;
        },
    }
    true
}

/// Decodes a BTC Markets frame that was read as JSON.
pub fn btcmarkets_decode(state: &mut NameMap<Orderbook>, j: &Json) -> (r: Result<
    Option<Orderbook>,
    FeedError,
>)
    ensures
        (books_view(*final(state)), reading_of(r)) == btcmarkets_step(books_view(*old(state)), *j),
{
    let bids = match read_levels_member(j, "bids", false, Shape::Pair) {
        Some(l) => l,
        None => {
            return Err(FeedError::Malformed);
        },
    };
    let asks = match read_levels_member(j, "asks", false, Shape::Pair) {
        Some(l) => l,
        None => {
            return Err(FeedError::Malformed);
        },
    };
    let last_price = match read_text_member(j, "lastPrice", false) {
        Some(t) => t,
        None => {
            return Err(FeedError::Malformed);
        },
    };
    let volume = match read_text_member(j, "volume24h", false) {
        Some(t) => t,
        None => {
            return Err(FeedError::Malformed);
        },
    };
    let kind = match read_text_member(j, "messageType", true) {
        Some(t) => t,
        None => {
            return Err(FeedError::Malformed);
        },
    };
    let market = match read_text_member(j, "marketId", false) {
        Some(t) => t,
        None => {
            return Err(FeedError::Malformed);
        },
    };
    let ghost books = books_view(*state);
    let mut ob = take_or_fresh(state, market.as_str(), "btcmarkets");
    if same_text(kind.as_str(), "orderbook") {
        ob.clear_asks();
        ob.clear_bids();
        let done = fill_both(&mut ob, &bids, &asks);
        assert(books.remove(market@).insert(market@, ob@) =~= books.insert(market@, ob@));
        settle(state, market.as_str(), ob, done)
    } else if same_text(kind.as_str(), "tick") {
        let done = tick(&mut ob, last_price.as_str(), volume.as_str());
        assert(books.remove(market@).insert(market@, ob@) =~= books.insert(market@, ob@));
        settle(state, market.as_str(), ob, done)
    } else {
        assert(books.remove(market@).insert(market@, ob@) =~= books.insert(market@, ob@));
        keep(state, market.as_str(), ob);
        Ok(None)
    }
}

/// Reads one BTC Markets frame.
pub fn btcmarkets_parser(state: &mut NameMap<Orderbook>, raw: &str) -> (r: Result<
    Option<Orderbook>,
    FeedError,
>)
    ensures
        (books_view(*final(state)), reading_of(r)) == btcmarkets_read(
            books_view(*old(state)),
            raw@,
        ),
{
    match Json::parse(raw) {
        Some(j) => btcmarkets_decode(state, &j),
        None => Err(FeedError::Malformed),
    }
}

/// Drops every book.
pub fn btcmarkets_clear(state: &mut NameMap<Orderbook>)
    ensures
        books_view(*final(state)) == Map::<Seq<char>, Book>::empty(),
{
    state.clear();
    assert(books_view(*state) =~= Map::<Seq<char>, Book>::empty());
}

} // verus!
