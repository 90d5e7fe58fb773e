//! The books that a parser keeps between frames, one for each channel of its
//! exchange.

use crate::apitree::wire::{emitted, Reading};
use crate::error::FeedError;
use crate::names::NameMap;
use crate::orderbook::{Book, Orderbook};
use vstd::prelude::*;

verus! {

/// The mathematical reading of a parser's books: a map from the channel to
/// the reading of its book.
pub type Books = Map<Seq<char>, Book>;

/// The reading of the books that a parser keeps.
pub open spec fn books_view(state: NameMap<Orderbook>) -> Books {
    state.map().map_values(|b: Orderbook| b@)
}

/// The book of the channel `key`, or a fresh book of the exchange `name`
/// where the channel has none.
pub open spec fn book_or_fresh(books: Books, key: Seq<char>, name: Seq<char>) -> Book {
    if books.dom().contains(key) {
        books[key]
    } else {
        Book::fresh(name)
    }
}

/// The books with a book for `key`: the one that is there, or a fresh one.
pub open spec fn with_book(books: Books, key: Seq<char>, name: Seq<char>) -> Books {
    books.insert(key, book_or_fresh(books, key, name))
}

/// What a parser with books makes of a book that was worked on: the book is
/// kept under `key` as far as it got, and it is emitted if the work was
/// done.
pub open spec fn settled(books: Books, key: Seq<char>, outcome: (Book, bool)) -> (Books, Reading) {
    (books.insert(key, outcome.0), emitted(outcome))
}

/// Takes the book of the channel `key` out of the books, or makes a fresh
/// book of the exchange `name` where the channel has none.
pub fn take_or_fresh(state: &mut NameMap<Orderbook>, key: &str, name: &str) -> (book: Orderbook)
    ensures
        book@ == book_or_fresh(books_view(*old(state)), key@, name@),
        books_view(*final(state)) == books_view(*old(state)).remove(key@),
{
    let taken = state.take(key);
    assert(books_view(*state) =~= books_view(*old(state)).remove(key@));
    match taken {
        Some(book) => book,
        None => Orderbook::new(name),
    }
}

/// Puts `book` under the channel `key`.
pub fn keep(state: &mut NameMap<Orderbook>, key: &str, book: Orderbook)
    ensures
        books_view(*final(state)) == books_view(*old(state)).insert(key@, book@),
{
    state.put(key.to_owned(), book);
    assert(books_view(*state) =~= books_view(*old(state)).insert(key@, book@));
}

/// Puts `book` under the channel `key` and emits a copy of it, if the work
/// on it was done.
pub fn settle(state: &mut NameMap<Orderbook>, key: &str, book: Orderbook, done: bool) -> (r: Result<
    Option<Orderbook>,
    FeedError,
>)
    ensures
        (books_view(*final(state)), crate::apitree::wire::reading_of(r)) == settled(
            books_view(*old(state)),
            key@,
            (book@, done),
        ),
{
    let out = if done {
        Ok(Some(book.clone()))
    } else {
        Err(FeedError::BadDecimal)
    };
    keep(state, key, book);
    out
}

} // verus!
