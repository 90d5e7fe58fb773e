//! CoinJar: `book:<pair>` topics carry the book of a pair, whole on `init`
//! and in changes on `update`; `ticker:<pair>` topics carry its volume and
//! last price.

use crate::apitree::channels::{
    book_or_fresh, books_view, keep, settle, settled, take_or_fresh, Books,
};
use crate::apitree::wire::{
    fill_both, filled_both, levels_member, read_levels_member, read_text_member, reading_of,
    set_volume_then_last, text_member, volume_then_last, Reading, Shape,
};
use crate::error::FeedError;
use crate::json::{json_of_text, Json};
use crate::names::NameMap;
use crate::orderbook::{Book, Orderbook};
use crate::text::{remove_pattern, same_text, starts_with, without_pattern};
use vstd::prelude::*;

verus! {

/// What a ticker event does: the pair, which is the topic without
/// `ticker:`, gets a book if it has none, and the optional strings `volume`
/// and `last` of the payload are set on it.
pub open spec fn coinjar_ticker(books: Books, topic: Seq<char>, payload: Json) -> (Books, Reading) {
    let key = without_pattern(topic, "ticker:"@);
    let book = book_or_fresh(books, key, "coinjar"@);
    if !(payload is Object) {
        (books.insert(key, book), Err(FeedError::Malformed))
    } else {
        match (text_member(payload, "volume"@, false), text_member(payload, "last"@, false)) {
            (Some(volume), Some(last)) => settled(books, key, volume_then_last(book, volume, last)),
            _ => (books.insert(key, book), Err(FeedError::Malformed)),
        }
    }
}

/// What a book event does: the pair, which is the topic without `book:`,
/// gets a book if it has none; `init` empties it; the optional lists `bids`
/// and `asks` of the payload, `[price, quantity]` string pairs, are inserted.
pub open spec fn coinjar_book(books: Books, topic: Seq<char>, init: bool, payload: Json) -> (
    Books,
    Reading,
) {
    let key = without_pattern(topic, "book:"@);
    let book = book_or_fresh(books, key, "coinjar"@);
    let start = if init {
        book.emptied()
    } else {
        book
    };
    if !(payload is Object) {
        (books.insert(key, start), Err(FeedError::Malformed))
    } else {
        match (
            levels_member(payload, "bids"@, false, Shape::Pair),
            levels_member(payload, "asks"@, false, Shape::Pair),
        ) {
            (Some(bids), Some(asks)) => settled(books, key, filled_both(start, bids, asks)),
            _ => (books.insert(key, start), Err(FeedError::Malformed)),
        }
    }
}

/// What a CoinJar frame, read as JSON, does to the books and yields.
///
/// The frame is an object with the strings `event` and `topic` and the
/// member `payload`. Only the events `init` and `update` are read, and of
/// them only those whose topic begins with `ticker` or with `book`; every
/// other frame yields nothing and leaves the books alone.
pub open spec fn coinjar_step(books: Books, j: Json) -> (Books, Reading) {
    match (text_member(j, "event"@, true), j.member("payload"@), text_member(j, "topic"@, true)) {
        (Some(event), Some(payload), Some(topic)) => {
            if event != "init"@ && event != "update"@ {
                (books, Ok(None))
            } else if "ticker"@.is_prefix_of(topic) {
                coinjar_ticker(books, topic, payload)
            } else if "book"@.is_prefix_of(topic) {
                coinjar_book(books, topic, event == "init"@, payload)
            } else {
                (books, Ok(None))
            }
        },
        _ => (books, Err(FeedError::Malformed)),
    }
}

/// What a CoinJar frame does to the books and yields: [`coinjar_step`] of
/// its JSON, and an error that leaves the books alone for a frame that is no
/// JSON.
pub open spec fn coinjar_read(books: Books, raw: Seq<char>) -> (Books, Reading) {
    match json_of_text(raw) {
        Some(j) => coinjar_step(books, j),
        None => (books, Err(FeedError::Malformed)),
    }
}

/// Works a ticker event into the books.
fn apply_ticker(state: &mut NameMap<Orderbook>, topic: &str, payload: &Json) -> (r: Result<
    Option<Orderbook>,
    FeedError,
>)
    ensures
        (books_view(*final(state)), reading_of(r)) == coinjar_ticker(
            books_view(*old(state)),
            topic@,
            *payload,
        ),
{
    let ghost books = books_view(*state);
    let key = remove_pattern(topic, "ticker:");
    let mut ob = take_or_fresh(state, key.as_str(), "coinjar");
    assert(books.remove(key@).insert(key@, ob@) =~= books.insert(key@, ob@));
    if !payload.is_object() {
        keep(state, key.as_str(), ob);
        return Err(FeedError::Malformed);
    }
    let volume = match read_text_member(payload, "volume", false) {
        Some(t) => t,
        None => {
            keep(state, key.as_str(), ob);
            return Err(FeedError::Malformed);
        },
    };
    let last = match read_text_member(payload, "last", false) {
        Some(t) => t,
        None => {
            keep(state, key.as_str(), ob);
            return Err(FeedError::Malformed);
        },
    };
    let done = set_volume_then_last(&mut ob, volume.as_str(), last.as_str());
    assert(books.remove(key@).insert(key@, ob@) =~= books.insert(key@, ob@));
    settle(state, key.as_str(), ob, done)
}

/// Works a book event into the books.
fn apply_book(state: &mut NameMap<Orderbook>, topic: &str, init: bool, payload: &Json) -> (r:
    Result<Option<Orderbook>, FeedError>)
    ensures
        (books_view(*final(state)), reading_of(r)) == coinjar_book(
            books_view(*old(state)),
            topic@,
            init,
            *payload,
        ),
{
    let ghost books = books_view(*state);
    let key = remove_pattern(topic, "book:");
    let mut ob = take_or_fresh(state, key.as_str(), "coinjar");
    if init {
        ob.clear_asks();
        ob.clear_bids();
    }
    assert(books.remove(key@).insert(key@, ob@) =~= books.insert(key@, ob@));
    if !payload.is_object() {
        keep(state, key.as_str(), ob);
        return Err(FeedError::Malformed);
    }
    let bids = match read_levels_member(payload, "bids", false, Shape::Pair) {
        Some(l) => l,
        None => {
            keep(state, key.as_str(), ob);
            return Err(FeedError::Malformed);
        },
    };
    let asks = match read_levels_member(payload, "asks", false, Shape::Pair) {
        Some(l) => l,
        None => {
            keep(state, key.as_str(), ob);
            return Err(FeedError::Malformed);
        },
    };
    let done = fill_both(&mut ob, &bids, &asks);
    assert(books.remove(key@).insert(key@, ob@) =~= books.insert(key@, ob@));
    settle(state, key.as_str(), ob, done)
}

/// Decodes a CoinJar frame that was read as JSON.
pub fn coinjar_decode(state: &mut NameMap<Orderbook>, j: &Json) -> (r: Result<
    Option<Orderbook>,
    FeedError,
>)
    ensures
        (books_view(*final(state)), reading_of(r)) == coinjar_step(books_view(*old(state)), *j),
{
    let event = match read_text_member(j, "event", true) {
        Some(t) => t,
        None => {
            return Err(FeedError::Malformed);
        },
    };
    let payload = match j.get("payload") {
        Some(p) => p,
        None => {
            return Err(FeedError::Malformed);
        },
    };
    let topic = match read_text_member(j, "topic", true) {
        Some(t) => t,
        None => {
            return Err(FeedError::Malformed);
        },
    };
    let init = same_text(event.as_str(), "init");
    if !init && !same_text(event.as_str(), "update") {
        return Ok(None);
    }
    if starts_with(topic.as_str(), "ticker") {
        apply_ticker(state, topic.as_str(), payload)
    } else if starts_with(topic.as_str(), "book") {
        apply_book(state, topic.as_str(), init, payload)
    } else {
        Ok(None)
    }
}

/// Reads one CoinJar frame.
pub fn coinjar_parser(state: &mut NameMap<Orderbook>, raw: &str) -> (r: Result<
    Option<Orderbook>,
    FeedError,
>)
    ensures
        (books_view(*final(state)), reading_of(r)) == coinjar_read(books_view(*old(state)), raw@),
{
    match Json::parse(raw) {
        Some(j) => coinjar_decode(state, &j),
        None => Err(FeedError::Malformed),
    }
}

/// Drops every book.
pub fn coinjar_clear(state: &mut NameMap<Orderbook>)
    ensures
        books_view(*final(state)) == Map::<Seq<char>, Book>::empty(),
{
    state.clear();
    assert(books_view(*state) =~= Map::<Seq<char>, Book>::empty());
}

} // verus!
