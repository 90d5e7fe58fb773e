//! Independent Reserve: a `Subscriptions` event names the channels, an
//! `OrderBookSnapshot` carries the whole book of a channel and an
//! `OrderBookChange` the levels that changed.

use crate::apitree::channels::{books_view, keep, settle, settled, with_book, Books};
use crate::apitree::wire::{
    fill_both, filled_both, levels_member, read_levels_member, read_text_items,
    read_text_member, read_unsigned_member, reading_of, text_items, text_member,
    unsigned_member, Reading, Shape,
};
use crate::error::FeedError;
use crate::json::{json_of_text, Json};
use crate::names::NameMap;
use crate::orderbook::{Book, Orderbook};
use crate::text::same_text;
use vstd::prelude::*;

verus! {

/// The books after each of the channels that had none got a fresh book; a
/// channel that has a book keeps it.
pub open spec fn with_fresh_books(books: Books, channels: Seq<Seq<char>>) -> Books
    decreases channels.len(),
{
    if channels.len() == 0 {
        books
    } else {
        with_book(
            with_fresh_books(books, channels.drop_last()),
            channels.last(),
            "independentreserve"@,
        )
    }
}

/// The member `Data` of an event; `null` where the event has none.
pub open spec fn event_data(j: Json) -> Json {
    match j.member("Data"@) {
        Some(d) => d,
        None => Json::Null,
    }
}

/// What a book event does to the book `start` of its channel and yields. The
/// data must hold the lists `Bids` and `Offers` of `{Price, Volume}` number
/// pairs and the unsigned integer `Crc32`; the bids and then the offers are
/// inserted, each number in the text that the JSON value holds it in.
pub open spec fn indreserve_levels(books: Books, channel: Seq<char>, start: Book, data: Json) -> (
    Books,
    Reading,
) {
    match (
        levels_member(data, "Bids"@, true, Shape::PriceVolume),
        levels_member(data, "Offers"@, true, Shape::PriceVolume),
        data.member("Crc32"@),
        unsigned_member(data, "Crc32"@),
    ) {
        (Some(bids), Some(asks), Some(_), Some(_)) => settled(
            books,
            channel,
            filled_both(start, bids, asks),
        ),
        _ => (books.insert(channel, start), Err(FeedError::Malformed)),
    }
}

/// What an Independent Reserve frame, read as JSON, does to the books and
/// yields.
///
/// The frame is an object with the string `Event` and the optional members
/// `Channel`, a string, and `Data`. `Subscriptions` gives each channel that
/// its data lists and that has no book a fresh book, and yields nothing.
/// `OrderBookSnapshot` and `OrderBookChange` need a book for their channel;
/// the snapshot empties it first; both insert the levels of the data and
/// emit the book. Any other event yields nothing.
pub open spec fn indreserve_step(books: Books, j: Json) -> (Books, Reading) {
    match (text_member(j, "Channel"@, false), text_member(j, "Event"@, true)) {
        (Some(channel), Some(event)) => {
            if event == "Subscriptions"@ {
                match text_items(event_data(j)) {
                    Some(channels) => (with_fresh_books(books, channels), Ok(None)),
                    None => (books, Err(FeedError::Malformed)),
                }
            } else if event != "OrderBookSnapshot"@ && event != "OrderBookChange"@ {
                (books, Ok(None))
            } else if !books.dom().contains(channel) {
                (books, Err(FeedError::UnknownChannel))
            } else if event == "OrderBookSnapshot"@ {
                indreserve_levels(books, channel, books[channel].emptied(), event_data(j))
            } else {
                indreserve_levels(books, channel, books[channel], event_data(j))
            }
        },
        _ => (books, Err(FeedError::Malformed)),
    }
}

/// What an Independent Reserve frame does to the books and yields:
/// [`indreserve_step`] of its JSON, and an error that leaves the books alone
/// for a frame that is no JSON.
pub open spec fn indreserve_read(books: Books, raw: Seq<char>) -> (Books, Reading) {
    match json_of_text(raw) {
        Some(j) => indreserve_step(books, j),
        None => (books, Err(FeedError::Malformed)),
    }
}

/// Works the levels of a book event into the book of its channel.
fn apply_levels(state: &mut NameMap<Orderbook>, channel: &str, book: Orderbook, data: &Json) -> (r:
    Result<Option<Orderbook>, FeedError>)
    ensures
        (books_view(*final(state)), reading_of(r)) == indreserve_levels(
            books_view(*old(state)),
            channel@,
            book@,
            *data,
        ),
{
    let mut ob = book;
    let bids = match read_levels_member(data, "Bids", true, Shape::PriceVolume) {
        Some(l) => l,
        None => {
            keep(state, channel, ob);
            return Err(FeedError::Malformed);
        },
    };
    let asks = match read_levels_member(data, "Offers", true, Shape::PriceVolume) {
        Some(l) => l,
        None => {
            keep(state, channel, ob);
            return Err(FeedError::Malformed);
        },
    };
    if data.get("Crc32").is_none() || read_unsigned_member(data, "Crc32").is_none() {
        keep(state, channel, ob);
        return Err(FeedError::Malformed);
    }
    let done = fill_both(&mut ob, &bids, &asks);
    settle(state, channel, ob, done)
}

/// Decodes an Independent Reserve frame that was read as JSON.
pub fn indreserve_decode(state: &mut NameMap<Orderbook>, j: &Json) -> (r: Result<
    Option<Orderbook>,
    FeedError,
>)
    ensures
        (books_view(*final(state)), reading_of(r)) == indreserve_step(books_view(*old(state)), *j),
{
    let channel = match read_text_member(j, "Channel", false) {
        Some(t) => t,
        None => {
            return Err(FeedError::Malformed);
        },
    };
    let event = match read_text_member(j, "Event", true) {
        Some(t) => t,
        None => {
            return Err(FeedError::Malformed);
        },
    };
    let null = Json::Null;
    let data = match j.get("Data") {
        Some(d) => d,
        None => &null,
    };
    let ghost books = books_view(*state);
    if same_text(event.as_str(), "Subscriptions") {
        let channels = match read_text_items(data) {
            Some(c) => c,
            None => {
                return Err(FeedError::Malformed);
            },
        };
        let ghost names = channels@.map_values(|s: String| s@);
        let mut i: usize = 0;
        assert(names.take(0) =~= Seq::<Seq<char>>::empty());
        while i < channels.len()
            invariant
                i <= channels.len(),
                names == channels@.map_values(|s: String| s@),
                books_view(*state) == with_fresh_books(books, names.take(i as int)),
            decreases channels.len() - i,
        {
            let ghost next = names.take(i + 1);
            assert(next.drop_last() =~= names.take(i as int));
            assert(next.last() == channels@[i as int]@);
            let ghost before = books_view(*state);
            if state.get(channels[i].as_str()).is_none() {
                keep(state, channels[i].as_str(), Orderbook::new("independentreserve"));
            } else {
                assert(before.insert(next.last(), before[next.last()]) =~= before);
            }
            i += 1;
        }
        assert(names.take(i as int) =~= names);
        return Ok(None);
    }
    let snapshot = same_text(event.as_str(), "OrderBookSnapshot");
    if !snapshot && !same_text(event.as_str(), "OrderBookChange") {
        return Ok(None);
    }
    match state.take(channel.as_str()) {
        Some(book) => {
            let mut ob = book;
            assert(books_view(*state) =~= books.remove(channel@));
            if snapshot {
                ob.clear_asks();
                ob.clear_bids();
            }
            assert(books.remove(channel@).insert(channel@, ob@) =~= books.insert(channel@, ob@));
            let ghost start = ob@;
            let r = apply_levels(state, channel.as_str(), ob, data);
            proof {
                let bids = levels_member(*data, "Bids"@, true, Shape::PriceVolume);
                let asks = levels_member(*data, "Offers"@, true, Shape::PriceVolume);
                if bids is Some && asks is Some {
                    let out = filled_both(start, bids->0, asks->0).0;
                    assert(books.remove(channel@).insert(channel@, out) =~= books.insert(
                        channel@,
                        out,
                    ));
                }
            }
            r
        },
        None => {
            assert(books_view(*state) =~= books);
            Err(FeedError::UnknownChannel)
        },
    }
}

/// Reads one Independent Reserve frame.
pub fn indreserve_parser(state: &mut NameMap<Orderbook>, raw: &str) -> (r: Result<
    Option<Orderbook>,
    FeedError,
>)
    ensures
        (books_view(*final(state)), reading_of(r)) == indreserve_read(
            books_view(*old(state)),
            raw@,
        ),
{
    match Json::parse(raw) {
        Some(j) => indreserve_decode(state, &j),
        None => Err(FeedError::Malformed),
    }
}

/// Drops every book.
pub fn indreserve_clear(state: &mut NameMap<Orderbook>)
    ensures
        books_view(*final(state)) == Map::<Seq<char>, Book>::empty(),
{
    state.clear();
    assert(books_view(*state) =~= Map::<Seq<char>, Book>::empty());
}

} // verus!
