//! Bitstamp: every data event carries the whole top of the book.

use crate::apitree::wire::{
    emitted, fill_both, filled_both, levels_member, read_levels_member, read_text_member,
    reading_of, text_member, Reading, Shape,
};
use crate::error::FeedError;
use crate::json::{json_of_text, Json};
use crate::orderbook::{Book, Orderbook};
use crate::text::{same_text, starts_with};
use vstd::prelude::*;

verus! {

/// What the `data` of a Bitstamp data event yields: it must hold the lists
/// `bids` and `asks` of `[price, quantity]` string pairs and the strings
/// `timestamp` and `microtimestamp`, and yields a fresh book with the bids,
/// then the asks, inserted.
pub open spec fn bitstamp_book(data: Json) -> Reading {
    match (
        levels_member(data, "bids"@, true, Shape::Pair),
        levels_member(data, "asks"@, true, Shape::Pair),
        text_member(data, "timestamp"@, true),
        text_member(data, "microtimestamp"@, true),
    ) {
        (Some(bids), Some(asks), Some(_), Some(_)) => emitted(
            filled_both(Book::fresh("bitstamp"@), bids, asks),
        ),
        _ => Err(FeedError::Malformed),
    }
}

/// What a Bitstamp frame, read as JSON, yields.
///
/// The frame is an object with the members `data`, `event` and `channel`.
/// Only the event `data` yields a book; its channel must be an order-book
/// channel. Every other event yields nothing.
pub open spec fn bitstamp_decoded(j: Json) -> Reading {
    match (j.member("data"@), text_member(j, "event"@, true), text_member(j, "channel"@, true)) {
        (Some(data), Some(event), Some(channel)) => {
            if event != "data"@ {
                Ok(None)
            } else if !"order_book_"@.is_prefix_of(channel) {
                Err(FeedError::NotOrderbookChannel)
            } else {
                bitstamp_book(data)
            }
        },
        _ => Err(FeedError::Malformed),
    }
}

/// What a Bitstamp frame yields: [`bitstamp_decoded`] of its JSON, and an
/// error for a frame that is no JSON.
pub open spec fn bitstamp_read(raw: Seq<char>) -> Reading {
    match json_of_text(raw) {
        Some(j) => bitstamp_decoded(j),
        None => Err(FeedError::Malformed),
    }
}

/// Decodes a Bitstamp frame that was read as JSON.
pub fn bitstamp_decode(j: &Json) -> (r: Result<Option<Orderbook>, FeedError>)
    ensures
        reading_of(r) == bitstamp_decoded(*j),
{
    let data = match j.get("data") {
        Some(d) => d,
        None => {
            return Err(FeedError::Malformed);
        },
    };
    let event = match read_text_member(j, "event", true) {
        Some(e) => e,
        None => {
            return Err(FeedError::Malformed);
        },
    };
    let channel = match read_text_member(j, "channel", true) {
        Some(c) => c,
        None => {
            return Err(FeedError::Malformed);
        },
    };
    if !same_text(event.as_str(), "data") {
        return Ok(None);
    }
    if !starts_with(channel.as_str(), "order_book_") {
        return Err(FeedError::NotOrderbookChannel);
    }
    let bids = match read_levels_member(data, "bids", true, Shape::Pair) {
        Some(l) => l,
        None => {
            return Err(FeedError::Malformed);
        },
    };
    let asks = match read_levels_member(data, "asks", true, Shape::Pair) {
        Some(l) => l,
        None => {
            return Err(FeedError::Malformed);
        },
    };
    if read_text_member(data, "timestamp", true).is_none() {
        return Err(FeedError::Malformed);
    }
    if read_text_member(data, "microtimestamp", true).is_none() {
        return Err(FeedError::Malformed);
    }
    let mut ob = Orderbook::new("bitstamp");
    if fill_both(&mut ob, &bids, &asks) {
        Ok(Some(ob))
    } else {
        Err(FeedError::BadDecimal)
    }
}

/// Reads one Bitstamp frame.
pub fn bitstamp_parser(raw: &str) -> (r: Result<Option<Orderbook>, FeedError>)
    ensures
        reading_of(r) == bitstamp_read(raw@),
{
    match Json::parse(raw) {
        Some(j) => bitstamp_decode(&j),
        None => Err(FeedError::Malformed),
    }
}

} // verus!
