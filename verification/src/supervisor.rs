//! The latest book of each exchange, and the summary that is published
//! whenever one of them changes.

use crate::aggregate::{Aggregate, AggregatedOrderbook, Summary};
use crate::error::FeedError;
use crate::names::NameMap;
use crate::orderbook::Orderbook;
use vstd::prelude::*;

verus! {

/// The cross-exchange view of the books, merged first one first.
pub open spec fn merged_all(books: Seq<Orderbook>) -> Aggregate
    decreases books.len(),
{
    if books.len() == 0 {
        Aggregate::empty()
    } else {
        merged_all(books.drop_last()).merged(books.last()@, books.last().timestamp)
    }
}

/// The latest book of each exchange, in the order in which the exchanges
/// first emitted one.
#[derive(Debug, PartialEq)]
pub struct MarketData {
    pub cache: NameMap<Orderbook>,
}

impl MarketData {
    /// Market data without any book.
    pub fn new() -> (r: MarketData)
        ensures
            r.cache.names() == Seq::<Seq<char>>::empty(),
            r.cache.values() == Seq::<Orderbook>::empty(),
    {
        MarketData { cache: NameMap::new() }
    }

    /// The summary of the books that are held: a fresh cross-exchange view
    /// into which each book is merged, finalized.
    pub fn summary(&self) -> (r: Result<Summary, FeedError>)
        ensures
            r is Ok,
            r->Ok_0@ == merged_all(self.cache.values()).summary(),
    {
        let mut agg = AggregatedOrderbook::new();
        let n: usize = self.cache.len();
        let ghost books = self.cache.values();
        let mut i: usize = 0;
        assert(books.take(0) =~= Seq::<Orderbook>::empty());
        while i < n
            invariant
                i <= n,
                n == self.cache.values().len(),
                n == self.cache.names().len(),
                books == self.cache.values(),
                agg@ == merged_all(books.take(i as int)),
            decreases n - i,
        {
            let ghost next = books.take(i + 1);
            assert(next.drop_last() =~= books.take(i as int));
            assert(next.last() == books[i as int]);
            agg.merge(self.cache.value_at(i));
            i += 1;
        }
        assert(books.take(n as int) =~= books);
        agg.finalize()
    }

    /// Takes the book that `exchange` emitted in place of the one held for
    /// it, and works out the summary of all books that are then held. An
    /// exchange that has a book keeps its place among the exchanges; one
    /// that has none comes last.
    pub fn update(&mut self, exchange: &str, orderbook: Orderbook) -> (r: Result<Summary, FeedError>)
        ensures
            final(self).cache.map() == old(self).cache.map().insert(exchange@, orderbook),
            old(self).cache.names().contains(exchange@) ==> final(self).cache.names() == old(
                self,
            ).cache.names() && final(self).cache.values() == old(self).cache.values().update(
                old(self).cache.names().index_of(exchange@),
                orderbook,
            ),
            !old(self).cache.names().contains(exchange@) ==> final(self).cache.names() == old(
                self,
            ).cache.names().push(exchange@) && final(self).cache.values() == old(
                self,
            ).cache.values().push(orderbook),
            r is Ok,
            r->Ok_0@ == merged_all(final(self).cache.values()).summary(),
    {
        self.cache.put(exchange.to_owned(), orderbook);
        self.summary()
    }
}

} // verus!
