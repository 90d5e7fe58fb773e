//! Kraken: data frames are arrays `[channel id, data, channel name, pair]`;
//! `book` channels carry the book of a pair, whole or in changes, and the
//! `ticker` channel its volume and last price.

use crate::apitree::channels::{
    book_or_fresh, books_view, settle, settled, take_or_fresh, Books,
};
use crate::apitree::wire::{
    fill, filled, levels_member, pair_member, raw_levels_view, read_levels_member,
    read_pair_member, reading_of, set_volume_then_last, volume_then_last, RawLevel,
    RawLevelView, Reading, Shape,
};
use crate::error::FeedError;
use crate::json::{json_of_text, Json};
use crate::names::NameMap;
use crate::orderbook::{Book, Orderbook, Side};
use crate::text::{same_text, starts_with, starts_with_char};
use vstd::prelude::*;

verus! {

/// The lists of levels that the data of a book frame can hold.
pub struct KrakenLevels {
    /// `bs`: the bids of a snapshot.
    pub bid_snapshot: Seq<RawLevelView>,
    /// `b`: bids that changed.
    pub bid_changes: Seq<RawLevelView>,
    /// `as`: the asks of a snapshot.
    pub ask_snapshot: Seq<RawLevelView>,
    /// `a`: asks that changed.
    pub ask_changes: Seq<RawLevelView>,
}

/// The lists of levels in the data of a book frame. Each list may be
/// missing; the items of `as` and `bs` are arrays of three strings, those of
/// `a` and `b` arrays of two or more.
pub open spec fn kraken_levels(data: Json) -> Option<KrakenLevels> {
    if !(data is Object) {
        None
    } else {
        match (
            levels_member(data, "as"@, false, Shape::Triple),
            levels_member(data, "bs"@, false, Shape::Triple),
            levels_member(data, "a"@, false, Shape::Row),
            levels_member(data, "b"@, false, Shape::Row),
        ) {
            (Some(ask_snapshot), Some(bid_snapshot), Some(ask_changes), Some(bid_changes)) => Some(
                KrakenLevels { bid_snapshot, bid_changes, ask_snapshot, ask_changes },
            ),
            _ => None,
        }
    }
}

/// The book after the levels of a book frame are worked in: a frame with a
/// snapshot empties the book first; then come the bids of the snapshot, the
/// bids that changed, the asks of the snapshot and the asks that changed.
/// The work stops at the first level whose price or quantity is no decimal.
pub open spec fn kraken_filled(book: Book, levels: KrakenLevels) -> (Book, bool) {
    let start = if levels.bid_snapshot.len() > 0 || levels.ask_snapshot.len() > 0 {
        book.emptied()
    } else {
        book
    };
    let a = filled(start, Side::Bid, levels.bid_snapshot);
    if !a.1 {
        a
    } else {
        let b = filled(a.0, Side::Bid, levels.bid_changes);
        if !b.1 {
            b
        } else {
            let c = filled(b.0, Side::Ask, levels.ask_snapshot);
            if !c.1 {
                c
            } else {
                filled(c.0, Side::Ask, levels.ask_changes)
            }
        }
    }
}

/// What a Kraken data frame, read as JSON, does to the books and yields.
///
/// The frame is an array of at least four items, of which the third is the
/// channel's name and the fourth the pair, both strings, and the second the
/// data. On a channel whose name begins with `book` the levels of the data
/// are worked into the pair's book; on the channel `ticker` the volume of
/// the last 24 hours, which is the second string of `v`, and the last trade
/// price, which is the first string of `c`, are set on it. Both give the
/// pair a book if it has none and emit the book. Any other channel yields
/// nothing.
pub open spec fn kraken_step(books: Books, j: Json) -> (Books, Reading) {
    match j.items() {
        Some(items) => if items.len() < 4 {
            (books, Err(FeedError::Malformed))
        } else {
            match (items[2].text(), items[3].text()) {
                (Some(channel), Some(pair)) => {
                    let data = items[1];
                    let book = book_or_fresh(books, pair, "kraken"@);
                    if "book"@.is_prefix_of(channel) {
                        match kraken_levels(data) {
                            Some(levels) => settled(books, pair, kraken_filled(book, levels)),
                            None => (books, Err(FeedError::Malformed)),
                        }
                    } else if channel == "ticker"@ {
                        if !(data is Object) {
                            (books, Err(FeedError::Malformed))
                        } else {
                            match (pair_member(data, "c"@), pair_member(data, "v"@)) {
                                (Some(c), Some(v)) => settled(
                                    books,
                                    pair,
                                    volume_then_last(book, v.quantity, c.price),
                                ),
                                _ => (books, Err(FeedError::Malformed)),
                            }
                        }
                    } else {
                        (books, Ok(None))
                    }
                },
                _ => (books, Err(FeedError::Malformed)),
            }
        },
        None => (books, Err(FeedError::Malformed)),
    }
}

/// What a Kraken frame does to the books and yields. A frame that begins
/// with `{` is a control message: it yields nothing and leaves the books
/// alone. Any other frame is read as [`kraken_step`] reads its JSON; one
/// that is no JSON is an error that leaves the books alone.
pub open spec fn kraken_read(books: Books, raw: Seq<char>) -> (Books, Reading) {
    if raw.len() > 0 && raw[0] == '{' {
        (books, Ok(None))
    } else {
        match json_of_text(raw) {
            Some(j) => kraken_step(books, j),
            None => (books, Err(FeedError::Malformed)),
        }
    }
}

/// Works the four lists of a book frame into `book`.
fn fill_lists(
    book: &mut Orderbook,
    bid_snapshot: &Vec<RawLevel>,
    bid_changes: &Vec<RawLevel>,
    ask_snapshot: &Vec<RawLevel>,
    ask_changes: &Vec<RawLevel>,
) -> (done: bool)
    ensures
        (final(book)@, done) == kraken_filled(
            old(book)@,
            KrakenLevels {
                bid_snapshot: raw_levels_view(bid_snapshot@),
                bid_changes: raw_levels_view(bid_changes@),
                ask_snapshot: raw_levels_view(ask_snapshot@),
                ask_changes: raw_levels_view(ask_changes@),
            },
        ),
{
    assert(raw_levels_view(bid_snapshot@).len() == bid_snapshot@.len());
    assert(raw_levels_view(ask_snapshot@).len() == ask_snapshot@.len());
    if bid_snapshot.len() > 0 || ask_snapshot.len() > 0 {
        book.clear_bids();
        book.clear_asks();
    }
    if !fill(book, Side::Bid, bid_snapshot) {
        return false;
    }
    if !fill(book, Side::Bid, bid_changes) {
        return false;
    }
    if !fill(book, Side::Ask, ask_snapshot) {
        return false;
    }
    fill(book, Side::Ask, ask_changes)
}

/// Works a book frame into the books.
fn apply_book(state: &mut NameMap<Orderbook>, pair: &str, data: &Json) -> (r: Result<
    Option<Orderbook>,
    FeedError,
>)
    ensures
        (books_view(*final(state)), reading_of(r)) == (match kraken_levels(*data) {
            Some(levels) => settled(
                books_view(*old(state)),
                pair@,
                kraken_filled(book_or_fresh(books_view(*old(state)), pair@, "kraken"@), levels),
            ),
            None => (books_view(*old(state)), Err(FeedError::Malformed)),
        }),
{
    if !data.is_object() {
        return Err(FeedError::Malformed);
    }
    let ask_snapshot = match read_levels_member(data, "as", false, Shape::Triple) {
        Some(l) => l,
        None => {
            return Err(FeedError::Malformed);
        },
    };
    let bid_snapshot = match read_levels_member(data, "bs", false, Shape::Triple) {
        Some(l) => l,
        None => {
            return Err(FeedError::Malformed);
        },
    };
    let ask_changes = match read_levels_member(data, "a", false, Shape::Row) {
        Some(l) => l,
        None => {
            return Err(FeedError::Malformed);
        },
    };
    let bid_changes = match read_levels_member(data, "b", false, Shape::Row) {
        Some(l) => l,
        None => {
            return Err(FeedError::Malformed);
        },
    };
    let ghost books = books_view(*state);
    let mut ob = take_or_fresh(state, pair, "kraken");
    let done = fill_lists(&mut ob, &bid_snapshot, &bid_changes, &ask_snapshot, &ask_changes);
    assert(books.remove(pair@).insert(pair@, ob@) =~= books.insert(pair@, ob@));
    settle(state, pair, ob, done)
}

/// Works a ticker frame into the books.
fn apply_ticker(state: &mut NameMap<Orderbook>, pair: &str, data: &Json) -> (r: Result<
    Option<Orderbook>,
    FeedError,
>)
    ensures
        (books_view(*final(state)), reading_of(r)) == (if !(*data is Object) {
            (books_view(*old(state)), Err(FeedError::Malformed))
        } else {
            match (pair_member(*data, "c"@), pair_member(*data, "v"@)) {
                (Some(c), Some(v)) => settled(
                    books_view(*old(state)),
                    pair@,
                    volume_then_last(
                        book_or_fresh(books_view(*old(state)), pair@, "kraken"@),
                        v.quantity,
                        c.price,
                    ),
                ),
                _ => (books_view(*old(state)), Err(FeedError::Malformed)),
            }
        }),
{
    if !data.is_object() {
        return Err(FeedError::Malformed);
    }
    let close = match read_pair_member(data, "c") {
        Some(l) => l,
        None => {
            return Err(FeedError::Malformed);
        },
    };
    let volume = match read_pair_member(data, "v") {
        Some(l) => l,
        None => {
            return Err(FeedError::Malformed);
        },
    };
    let ghost books = books_view(*state);
    let mut ob = take_or_fresh(state, pair, "kraken");
    let done = set_volume_then_last(&mut ob, volume.quantity.as_str(), close.price.as_str());
    assert(books.remove(pair@).insert(pair@, ob@) =~= books.insert(pair@, ob@));
    settle(state, pair, ob, done)
}

/// Decodes a Kraken data frame that was read as JSON.
pub fn kraken_decode(state: &mut NameMap<Orderbook>, j: &Json) -> (r: Result<
    Option<Orderbook>,
    FeedError,
>)
    ensures
        (books_view(*final(state)), reading_of(r)) == kraken_step(books_view(*old(state)), *j),
{
    let items = match j.as_array() {
        Some(i) => i,
        None => {
            return Err(FeedError::Malformed);
        },
    };
    if items.len() < 4 {
        return Err(FeedError::Malformed);
    }
    let channel = match items[2].as_text() {
        Some(t) => t,
        None => {
            return Err(FeedError::Malformed);
        },
    };
    let pair = match items[3].as_text() {
        Some(t) => t,
        None => {
            return Err(FeedError::Malformed);
        },
    };
    if starts_with(channel.as_str(), "book") {
        apply_book(state, pair.as_str(), &items[1])
    } else if same_text(channel.as_str(), "ticker") {
        apply_ticker(state, pair.as_str(), &items[1])
    } else {
        Ok(None)
    }
}

/// Reads one Kraken frame.
pub fn kraken_parser(state: &mut NameMap<Orderbook>, raw: &str) -> (r: Result<
    Option<Orderbook>,
    FeedError,
>)
    ensures
        (books_view(*final(state)), reading_of(r)) == kraken_read(books_view(*old(state)), raw@),
{
    if starts_with_char(raw, '{') {
        return Ok(None);
    }
    match Json::parse(raw) {
        Some(j) => kraken_decode(state, &j),
        None => Err(FeedError::Malformed),
    }
}

/// Drops every book.
pub fn kraken_clear(state: &mut NameMap<Orderbook>)
    ensures
        books_view(*final(state)) == Map::<Seq<char>, Book>::empty(),
{
    state.clear();
    assert(books_view(*state) =~= Map::<Seq<char>, Book>::empty());
}

} // verus!
