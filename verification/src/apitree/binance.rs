//! Binance: every depth frame carries the whole top of the book.

use crate::apitree::wire::{
    emitted, fill_both, filled_both, levels_member, read_levels_member, read_unsigned_member,
    reading_of, unsigned_member, Reading, Shape,
};
use crate::error::FeedError;
use crate::json::{json_of_text, Json};
use crate::orderbook::{Book, Orderbook};
use crate::text::same_text;
use vstd::prelude::*;

verus! {

/// What a Binance frame, read as JSON, yields.
///
/// The frame is an object with the optional members `lastUpdateId` and `id`,
/// unsigned integers, and `bids` and `asks`, lists of `[price, quantity]`
/// string pairs. A frame with no update id and no levels acknowledges a
/// subscription and yields nothing. Any other frame must carry no `result`
/// (or `null`) and yields a fresh book with its bids, then its asks,
/// inserted.
pub open spec fn binance_decoded(j: Json) -> Reading {
    if !(j is Object) {
        Err(FeedError::Malformed)
    } else {
        match (
            unsigned_member(j, "lastUpdateId"@),
            levels_member(j, "bids"@, false, Shape::Pair),
            levels_member(j, "asks"@, false, Shape::Pair),
            unsigned_member(j, "id"@),
        ) {
            (Some(update), Some(bids), Some(asks), Some(_)) => {
                if update == "0"@ && bids.len() == 0 && asks.len() == 0 {
                    Ok(None)
                } else if !(j.member("result"@) is None || j.member("result"@) == Some(
                    Json::Null,
                )) {
                    Err(FeedError::ResultNotEmpty)
                } else {
                    emitted(filled_both(Book::fresh("binance"@), bids, asks))
                }
            },
            _ => Err(FeedError::Malformed),
        }
    }
}

/// What a Binance frame yields: [`binance_decoded`] of its JSON, and an error
/// for a frame that is no JSON.
pub open spec fn binance_read(raw: Seq<char>) -> Reading {
    match json_of_text(raw) {
        Some(j) => binance_decoded(j),
        None => Err(FeedError::Malformed),
    }
}

/// Decodes a Binance frame that was read as JSON.
pub fn binance_decode(j: &Json) -> (r: Result<Option<Orderbook>, FeedError>)
    ensures
        reading_of(r) == binance_decoded(*j),
{
    if !j.is_object() {
        return Err(FeedError::Malformed);
    }
    let update = match read_unsigned_member(j, "lastUpdateId") {
        Some(u) => u,
        None => {
            return Err(FeedError::Malformed);
        },
    };
    let bids = match read_levels_member(j, "bids", false, Shape::Pair) {
        Some(l) => l,
        None => {
            return Err(FeedError::Malformed);
        },
    };
    let asks = match read_levels_member(j, "asks", false, Shape::Pair) {
        Some(l) => l,
        None => {
            return Err(FeedError::Malformed);
        },
    };
    if read_unsigned_member(j, "id").is_none() {
        return Err(FeedError::Malformed);
    }
    if same_text(update.as_str(), "0") && bids.len() == 0 && asks.len() == 0 {
        return Ok(None);
    }
    match j.get("result") {
        Some(v) => {
            if !v.is_null() {
                return Err(FeedError::ResultNotEmpty);
            }
        },
        None => {},
    }
    let mut ob = Orderbook::new("binance");
    if fill_both(&mut ob, &bids, &asks) {
        Ok(Some(ob))
    } else {
        Err(FeedError::BadDecimal)
    }
}

/// Reads one Binance frame.
pub fn binance_parser(raw: &str) -> (r: Result<Option<Orderbook>, FeedError>)
    ensures
        reading_of(r) == binance_read(raw@),
{
    match Json::parse(raw) {
        Some(j) => binance_decode(&j),
        None => Err(FeedError::Malformed),
    }
}

} // verus!
