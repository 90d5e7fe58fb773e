//! The normalized book of one exchange: a bid ladder, an ask ladder, the last
//! trade price, the 24h volume and the local time of the last change.

use crate::decimal::{lemma_zero_is_not_positive, Dec, Decimal};
use crate::ladder::{
    highest, lemma_with_level_well_formed, lowest, well_formed, with_level, without_price, Ladder,
    Quote,
};
use std::time::SystemTime;
use vstd::prelude::*;

verus! {

/// The side of a book that a level belongs to.
#[derive(Clone, Copy, Debug, PartialEq, Eq, Structural)]
pub enum Side {
    Bid,
    Ask,
}

/// The mathematical reading of an [`Orderbook`]. The time of the last change
/// is a reading of the local clock and is left out.
pub struct Book {
    pub name: Seq<char>,
    pub volume: Dec,
    pub last_price: Dec,
    /// The bid levels, lowest price first: the best bid is the last.
    pub bids: Seq<Quote>,
    /// The ask levels, lowest price first: the best ask is the first.
    pub asks: Seq<Quote>,
}

impl Book {
    /// The book of the exchange `name` before anything is known of it.
    pub open spec fn fresh(name: Seq<char>) -> Book {
        Book {
            name,
            volume: Dec::zero(),
            last_price: Dec::zero(),
            bids: Seq::empty(),
            asks: Seq::empty(),
        }
    }

    /// The book after the quantity at `price` on `side` is set to `quantity`.
    pub open spec fn inserted(self, side: Side, price: Dec, quantity: Dec) -> Book {
        match side {
            Side::Bid => Book { bids: with_level(self.bids, price, quantity), ..self },
            Side::Ask => Book { asks: with_level(self.asks, price, quantity), ..self },
        }
    }

    /// The book cut down to its `k` best levels a side: the highest bids and
    /// the lowest asks.
    pub open spec fn trimmed(self, k: int) -> Book {
        Book { bids: highest(self.bids, k), asks: lowest(self.asks, k), ..self }
    }

    /// The book with neither bids nor asks.
    pub open spec fn emptied(self) -> Book {
        Book { bids: Seq::empty(), asks: Seq::empty(), ..self }
    }

    /// Both sides have levels and the best bid is not below the best ask.
    pub open spec fn crossed(self) -> bool {
        &&& self.bids.len() > 0
        &&& self.asks.len() > 0
        &&& !self.bids.last().price.less_than(self.asks.first().price)
    }
}

/// `SystemTime::now`, as milliseconds since the Unix epoch; `None` where the
/// clock stands before the epoch. Nothing is promised of a clock reading.
#[verifier::external_body]
fn system_millis() -> Option<u128> {
    match SystemTime::now().duration_since(SystemTime::UNIX_EPOCH) {
        Ok(since) => Some(since.as_millis()),
        Err(_) => None,
    }
}

/// The current time in milliseconds since the Unix epoch; 0 where the clock
/// stands before the epoch.
fn get_unixtime() -> u128 {
    match system_millis() {
        Some(now) => now,
        None => 0,
    }
}

/// The book of one exchange.
#[derive(Debug, PartialEq)]
pub struct Orderbook {
    /// The exchange that the book belongs to.
    pub name: String,
    /// Local wall-clock time of the last change, in milliseconds since the
    /// Unix epoch.
    pub timestamp: u128,
    /// The 24h rolling volume, where the exchange tells it.
    pub volume: Decimal,
    /// The price of the most recent trade, where the exchange tells it.
    pub last_price: Decimal,
    pub bid: Ladder,
    pub ask: Ladder,
}

impl View for Orderbook {
    type V = Book;

    open spec fn view(&self) -> Book {
        Book {
            name: self.name@,
            volume: self.volume@,
            last_price: self.last_price@,
            bids: self.bid@,
            asks: self.ask@,
        }
    }
}

impl Orderbook {
    /// An empty book for the exchange `name`, stamped with the current time.
    pub fn new(name: &str) -> (r: Orderbook)
        ensures
            r@ == Book::fresh(name@),
            r@.wf(),
    {
        Orderbook::new_at(name, get_unixtime())
    }

    /// An empty book for the exchange `name`, stamped with the time `now`.
    pub fn new_at(name: &str, now: u128) -> (r: Orderbook)
        ensures
            r@ == Book::fresh(name@),
            r@.wf(),
            r.timestamp == now,
    {
        Orderbook {
            name: name.to_owned(),
            bid: Ladder::new(),
            ask: Ladder::new(),
            timestamp: now,
            last_price: Decimal::zero(),
            volume: Decimal::zero(),
        }
    }

    /// Does nothing when it runs; it tells a caller what holds of every
    /// book: both ladders ascend in price and every quantity lies above
    /// zero.
    pub fn ladders_are_well_formed(&self)
        ensures
            self@.wf(),
    {
        proof {
            use_type_invariant(&self.bid);
            use_type_invariant(&self.ask);
        }
    }

    /// Sets the quantity at `price` on `side`: a level at that price leaves,
    /// and where `volume` lies above zero a level with it enters. The book is
    /// stamped with the current time. A book that is crossed afterwards is
    /// kept as it is; [`Orderbook::is_crossed`] tells.
    pub fn insert(&mut self, side: Side, price: Decimal, volume: Decimal)
        ensures
            final(self)@ == old(self)@.inserted(side, price@, volume@),
            final(self)@.wf(),
    {
        self.insert_at(side, price, volume, get_unixtime());
    }

    /// Sets the quantity at `price` on `side`, as [`Orderbook::insert`] does,
    /// and stamps the book with the time `now`.
    pub fn insert_at(&mut self, side: Side, price: Decimal, volume: Decimal, now: u128)
        ensures
            final(self)@ == old(self)@.inserted(side, price@, volume@),
            final(self)@.wf(),
            final(self).timestamp == now,
    {
        match side {
            Side::Bid => {
                self.bid.put(price, volume);
            },
            Side::Ask => {
                self.ask.put(price, volume);
            },
        }
        self.timestamp = now;
        self.ladders_are_well_formed();
    }

    /// Keeps the `level` best levels of each side: the highest bids and the
    /// lowest asks.
    pub fn trim(&mut self, level: u32)
        ensures
            final(self)@ == old(self)@.trimmed(level as int),
            final(self)@.wf(),
            final(self).timestamp == old(self).timestamp,
    {
        self.bid.keep_highest(level as usize);
        self.ask.keep_lowest(level as usize);
        self.ladders_are_well_formed();
    }

    /// Drops every bid level.
    pub fn clear_bids(&mut self)
        ensures
            final(self)@ == (Book { bids: Seq::empty(), ..old(self)@ }),
            final(self).timestamp == old(self).timestamp,
    {
        self.bid.clear();
    }

    /// Drops every ask level.
    pub fn clear_asks(&mut self)
        ensures
            final(self)@ == (Book { asks: Seq::empty(), ..old(self)@ }),
            final(self).timestamp == old(self).timestamp,
    {
        self.ask.clear();
    }

    /// Whether both sides have levels and the best bid is not below the best
    /// ask.
    pub fn is_crossed(&self) -> (r: bool)
        ensures
            r == self@.crossed(),
    {
        match (self.bid.last(), self.ask.first()) {
            (Some(best_bid), Some(best_ask)) => !best_bid.price.less_than(&best_ask.price),
            _ => false,
        }
    }
}

impl Clone for Orderbook {
    fn clone(&self) -> (r: Orderbook)
        ensures
            r@ == self@,
            r.timestamp == self.timestamp,
    {
        Orderbook {
            name: self.name.clone(),
            timestamp: self.timestamp,
            volume: self.volume.clone(),
            last_price: self.last_price.clone(),
            bid: self.bid.clone(),
            ask: self.ask.clone(),
        }
    }
}

/// One call of [`Orderbook::insert`], read mathematically.
pub struct Insertion {
    pub side: Side,
    pub price: Dec,
    pub quantity: Dec,
}

impl Book {
    /// The book after the insertions `ops`, first one first.
    pub open spec fn after(self, ops: Seq<Insertion>) -> Book
        decreases ops.len(),
    {
        if ops.len() == 0 {
            self
        } else {
            self.after(ops.drop_last()).inserted(
                ops.last().side,
                ops.last().price,
                ops.last().quantity,
            )
        }
    }

    /// Both ladders ascend in price and every quantity lies above zero.
    pub open spec fn wf(self) -> bool {
        well_formed(self.bids) && well_formed(self.asks)
    }
}

/// Inserting a quantity that does not lie above zero, such as zero, at a
/// price removes that price's level from the side, keeps every other level
/// in its place, and leaves the other side and the rest of the book alone.
pub proof fn law_insert_zero_removes(book: Book, side: Side, price: Dec, quantity: Dec)
    requires
        quantity.is_zero() || !quantity.is_positive(),
    ensures
        side == Side::Bid ==> book.inserted(side, price, quantity) == (Book {
            bids: without_price(book.bids, price),
            ..book
        }),
        side == Side::Ask ==> book.inserted(side, price, quantity) == (Book {
            asks: without_price(book.asks, price),
            ..book
        }),
        forall|i: int|
            0 <= i < without_price(book.bids, price).len() ==> !(#[trigger] without_price(
                book.bids,
                price,
            )[i]).price.same_value(price),
        forall|i: int|
            0 <= i < without_price(book.asks, price).len() ==> !(#[trigger] without_price(
                book.asks,
                price,
            )[i]).price.same_value(price),
{
    if quantity.is_zero() {
        lemma_zero_is_not_positive(quantity);
    }
    let differs = |q: Quote| !q.price.same_value(price);
    assert forall|i: int| 0 <= i < without_price(book.bids, price).len() implies !(
    #[trigger] without_price(book.bids, price)[i]).price.same_value(price) by {
        book.bids.lemma_filter_pred(differs, i);
    }
    assert forall|i: int| 0 <= i < without_price(book.asks, price).len() implies !(
    #[trigger] without_price(book.asks, price)[i]).price.same_value(price) by {
        book.asks.lemma_filter_pred(differs, i);
    }
}

/// A book holds no quantity that does not lie above zero, and no price
/// twice on a side, whatever was inserted into it.
pub proof fn law_book_holds_positive_levels(book: Book, side: Side, price: Dec, quantity: Dec)
    requires
        book.wf(),
    ensures
        book.inserted(side, price, quantity).wf(),
        forall|i: int, j: int|
            #![trigger book.inserted(side, price, quantity).bids[i], book.inserted(side, price, quantity).bids[j]]
            0 <= i < j < book.inserted(side, price, quantity).bids.len() ==> !book.inserted(
                side,
                price,
                quantity,
            ).bids[i].price.same_value(book.inserted(side, price, quantity).bids[j].price),
        forall|i: int, j: int|
            #![trigger book.inserted(side, price, quantity).asks[i], book.inserted(side, price, quantity).asks[j]]
            0 <= i < j < book.inserted(side, price, quantity).asks.len() ==> !book.inserted(
                side,
                price,
                quantity,
            ).asks[i].price.same_value(book.inserted(side, price, quantity).asks[j].price),
{
    lemma_with_level_well_formed(book.bids, price, quantity);
    lemma_with_level_well_formed(book.asks, price, quantity);
    let after = book.inserted(side, price, quantity);
    assert forall|i: int, j: int| 0 <= i < j < after.bids.len() implies !after.bids[i].price.same_value(
        after.bids[j].price,
    ) by {
        crate::decimal::lemma_trichotomy(after.bids[i].price, after.bids[j].price);
    }
    assert forall|i: int, j: int| 0 <= i < j < after.asks.len() implies !after.asks[i].price.same_value(
        after.asks[j].price,
    ) by {
        crate::decimal::lemma_trichotomy(after.asks[i].price, after.asks[j].price);
    }
}

/// Insertions keep both ladders ascending and free of empty levels.
pub proof fn lemma_insertions_keep_order(book: Book, ops: Seq<Insertion>)
    requires
        book.wf(),
    ensures
        book.after(ops).wf(),
    decreases ops.len(),
{
    if ops.len() > 0 {
        lemma_insertions_keep_order(book, ops.drop_last());
        let before = book.after(ops.drop_last());
        lemma_with_level_well_formed(before.bids, ops.last().price, ops.last().quantity);
        lemma_with_level_well_formed(before.asks, ops.last().price, ops.last().quantity);
    }
}

/// Whatever was inserted into a fresh book, trimming to `k` leaves at most
/// `k` levels a side. The bids that stay are the last of the ladder and each
/// is priced above every bid that goes; the asks that stay are the first of
/// the ladder and each is priced below every ask that goes.
pub proof fn law_trim_keeps_best(name: Seq<char>, ops: Seq<Insertion>, k: nat)
    ensures
        ({
            let book = Book::fresh(name).after(ops);
            let cut = book.trimmed(k as int);
            let gone = book.bids.len() - cut.bids.len();
            &&& cut.bids.len() <= k
            &&& cut.asks.len() <= k
            &&& cut.bids.len() == if k < book.bids.len() { k } else { book.bids.len() }
            &&& cut.asks.len() == if k < book.asks.len() { k } else { book.asks.len() }
            &&& cut.bids == book.bids.skip(gone)
            &&& cut.asks == book.asks.take(cut.asks.len() as int)
            &&& forall|i: int, j: int|
                #![trigger book.bids[i], book.bids[j]]
                0 <= i < gone <= j < book.bids.len() ==> book.bids[i].price.less_than(
                    book.bids[j].price,
                )
            &&& forall|i: int, j: int|
                #![trigger book.asks[i], book.asks[j]]
                0 <= i < cut.asks.len() <= j < book.asks.len() ==> book.asks[i].price.less_than(
                    book.asks[j].price,
                )
        }),
{
    lemma_insertions_keep_order(Book::fresh(name), ops);
    let book = Book::fresh(name).after(ops);
    assert(book.bids.skip(0) =~= book.bids);
    assert(book.asks.take(book.asks.len() as int) =~= book.asks);
}

} // verus!
