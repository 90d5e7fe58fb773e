//! What the decoders of the exchanges' messages share: reading fields and
//! lists of levels out of a JSON value, and filling a book with levels.

use crate::decimal::{decimal_read, Decimal};
use crate::error::FeedError;
use crate::json::Json;
use crate::orderbook::{Book, Orderbook, Side};
use vstd::prelude::*;

verus! {

/// A price and a quantity in the text in which an exchange sent them.
#[derive(Debug, PartialEq)]
pub struct RawLevel {
    pub price: String,
    pub quantity: String,
}

/// The mathematical reading of a [`RawLevel`].
pub struct RawLevelView {
    pub price: Seq<char>,
    pub quantity: Seq<char>,
}

impl View for RawLevel {
    type V = RawLevelView;

    open spec fn view(&self) -> RawLevelView {
        RawLevelView { price: self.price@, quantity: self.quantity@ }
    }
}

/// The readings of a list of raw levels.
pub open spec fn raw_levels_view(levels: Seq<RawLevel>) -> Seq<RawLevelView> {
    levels.map_values(|l: RawLevel| l@)
}

/// What a parser makes of a frame: a book to emit, nothing, or an error.
pub type Reading = Result<Option<Book>, FeedError>;

/// The reading of what a parser returned.
pub open spec fn reading_of(r: Result<Option<Orderbook>, FeedError>) -> Reading {
    match r {
        Ok(Some(book)) => Ok(Some(book@)),
        Ok(None) => Ok(None),
        Err(e) => Err(e),
    }
}

/// The characters of the string member `key`. A missing member counts as the
/// empty string, unless it is `required`; `None` where the member is missing
/// though required, or is no string.
pub open spec fn text_member(j: Json, key: Seq<char>, required: bool) -> Option<Seq<char>> {
    match j.member(key) {
        Some(v) => v.text(),
        None => if required {
            None
        } else {
            Some(Seq::empty())
        },
    }
}

/// The string member `key` of `j`, as [`text_member`] reads it.
pub fn read_text_member(j: &Json, key: &str, required: bool) -> (r: Option<String>)
    ensures
        r is Some == text_member(*j, key@, required) is Some,
        r matches Some(s) ==> text_member(*j, key@, required) == Some(s@),
{
    match j.get(key) {
        Some(v) => match v.as_text() {
            Some(s) => Some(s.clone()),
            None => None,
        },
        None => if required {
            None
        } else {
            Some(String::new())
        },
    }
}

/// Whether `text` is a run of decimal digits, as an unsigned integer is
/// printed.
pub open spec fn is_digits(text: Seq<char>) -> bool {
    text.len() > 0 && forall|i: int| 0 <= i < text.len() ==> '0' <= #[trigger] text[i] <= '9'
}

/// Whether `text` is a run of decimal digits.
pub fn check_digits(text: &str) -> (r: bool)
    ensures
        r == is_digits(text@),
{
    let n: usize = text.unicode_len();
    if n == 0 {
        return false;
    }
    let mut i: usize = 0;
    while i < n
        invariant
            i <= n,
            n == text@.len(),
            forall|j: int| 0 <= j < i ==> '0' <= #[trigger] text@[j] <= '9',
        decreases n - i,
    {
        let c = text.get_char(i);
        if c < '0' || c > '9' {
            return false;
        }
        i += 1;
    }
    true
}

/// The digits of the unsigned integer member `key`. A missing member counts
/// as `0`; `None` where the member is no unsigned integer.
pub open spec fn unsigned_member(j: Json, key: Seq<char>) -> Option<Seq<char>> {
    match j.member(key) {
        Some(v) => match v.number() {
            Some(text) => if is_digits(text) {
                Some(text)
            } else {
                None
            },
            None => None,
        },
        None => Some("0"@),
    }
}

/// The unsigned integer member `key` of `j`, as [`unsigned_member`] reads it.
pub fn read_unsigned_member(j: &Json, key: &str) -> (r: Option<String>)
    ensures
        r is Some == unsigned_member(*j, key@) is Some,
        r matches Some(s) ==> unsigned_member(*j, key@) == Some(s@),
{
    match j.get(key) {
        Some(v) => match v.as_number() {
            Some(text) => if check_digits(text.as_str()) {
                Some(text.clone())
            } else {
                None
            },
            None => None,
        },
        None => Some("0".to_owned()),
    }
}

/// How an exchange writes one level.
#[derive(Clone, Copy, Debug, PartialEq, Eq, Structural)]
pub enum Shape {
    /// An array of exactly two strings: the price and the quantity.
    Pair,
    /// An array of exactly three strings: the price, the quantity and a
    /// time.
    Triple,
    /// An array of two or more strings, of which the first is the price and
    /// the second the quantity.
    Row,
    /// An object with the number members `Price` and `Volume`.
    PriceVolume,
    /// An object with the number members `rate`, the price, and `amount`.
    AmountRate,
}

/// Whether every item of `items` is a string.
pub open spec fn all_text(items: Seq<Json>) -> bool {
    forall|i: int| 0 <= i < items.len() ==> (#[trigger] items[i]).text() is Some
}

/// Whether an array of `n` items has a length that `shape` admits.
pub open spec fn admits(shape: Shape, n: int) -> bool {
    match shape {
        Shape::Pair => n == 2,
        Shape::Triple => n == 3,
        Shape::Row => n >= 2,
        Shape::PriceVolume => false,
        Shape::AmountRate => false,
    }
}

/// The text of the number member `key`; `None` where the member is missing
/// or is no number.
pub open spec fn number_member(j: Json, key: Seq<char>) -> Option<Seq<char>> {
    match j.member(key) {
        Some(v) => v.number(),
        None => None,
    }
}

/// The number member `key` of `j`, as [`number_member`] reads it.
pub fn read_number_member(j: &Json, key: &str) -> (r: Option<String>)
    ensures
        r is Some == number_member(*j, key@) is Some,
        r matches Some(s) ==> number_member(*j, key@) == Some(s@),
{
    match j.get(key) {
        Some(v) => match v.as_number() {
            Some(text) => Some(text.clone()),
            None => None,
        },
        None => None,
    }
}

/// The level that an object spells whose price is the number member
/// `price` and whose quantity is the number member `quantity`.
pub open spec fn level_of_numbers(item: Json, price: Seq<char>, quantity: Seq<char>) -> Option<
    RawLevelView,
> {
    match (number_member(item, price), number_member(item, quantity)) {
        (Some(p), Some(q)) => Some(RawLevelView { price: p, quantity: q }),
        _ => None,
    }
}

/// The level that `item` spells, as [`level_of_numbers`] reads it.
pub fn read_level_of_numbers(item: &Json, price: &str, quantity: &str) -> (r: Option<RawLevel>)
    ensures
        r is Some == level_of_numbers(*item, price@, quantity@) is Some,
        r matches Some(l) ==> level_of_numbers(*item, price@, quantity@) == Some(l@),
{
    let p = match read_number_member(item, price) {
        Some(t) => t,
        None => {
            return None;
        },
    };
    let q = match read_number_member(item, quantity) {
        Some(t) => t,
        None => {
            return None;
        },
    };
    Some(RawLevel { price: p, quantity: q })
}

/// The level that `item` spells in the given shape; `None` where it has not
/// that shape.
pub open spec fn level_of(item: Json, shape: Shape) -> Option<RawLevelView> {
    match shape {
        Shape::PriceVolume => level_of_numbers(item, "Price"@, "Volume"@),
        Shape::AmountRate => level_of_numbers(item, "rate"@, "amount"@),
        _ => match item.items() {
            Some(texts) => if admits(shape, texts.len() as int) && all_text(texts) {
                Some(RawLevelView { price: texts[0].text()->0, quantity: texts[1].text()->0 })
            } else {
                None
            },
            None => None,
        },
    }
}

/// The level that `item` spells in the given shape.
pub fn read_level(item: &Json, shape: Shape) -> (r: Option<RawLevel>)
    ensures
        r is Some == level_of(*item, shape) is Some,
        r matches Some(l) ==> level_of(*item, shape) == Some(l@),
{
    match shape {
        Shape::PriceVolume => read_level_of_numbers(item, "Price", "Volume"),
        Shape::AmountRate => read_level_of_numbers(item, "rate", "amount"),
        _ => match item.as_array() {
            Some(texts) => {
                let n: usize = texts.len();
                let fits = match shape {
                    Shape::Pair => n == 2,
                    Shape::Triple => n == 3,
                    Shape::Row => n >= 2,
                    Shape::PriceVolume => false,
                    Shape::AmountRate => false,
                };
                if !fits {
                    return None;
                }
                let mut i: usize = 0;
                while i < n
                    invariant
                        i <= n,
                        n == texts@.len(),
                        item.items() == Some(texts@),
                        forall|j: int| 0 <= j < i ==> (#[trigger] texts@[j]).text() is Some,
                    decreases n - i,
                {
                    if texts[i].as_text().is_none() {
                        assert(texts@[i as int].text() is None);
                        return None;
                    }
                    i += 1;
                }
                match (texts[0].as_text(), texts[1].as_text()) {
                    (Some(price), Some(quantity)) => Some(
                        RawLevel { price: price.clone(), quantity: quantity.clone() },
                    ),
                    _ => None,
                }
            },
            None => None,
        },
    }
}

/// The levels that the items spell; `None` where one of them spells none.
pub open spec fn levels_of(items: Seq<Json>, shape: Shape) -> Option<Seq<RawLevelView>>
    decreases items.len(),
{
    if items.len() == 0 {
        Some(Seq::empty())
    } else {
        match (levels_of(items.drop_last(), shape), level_of(items.last(), shape)) {
            (Some(front), Some(last)) => Some(front.push(last)),
            _ => None,
        }
    }
}

/// A list with an item that spells no level spells no levels.
pub proof fn lemma_levels_of_fail(items: Seq<Json>, shape: Shape, i: int)
    requires
        0 <= i < items.len(),
        level_of(items[i], shape) is None,
    ensures
        levels_of(items, shape) is None,
    decreases items.len(),
{
    if i < items.len() - 1 {
        assert(items.drop_last()[i] == items[i]);
        lemma_levels_of_fail(items.drop_last(), shape, i);
    }
}

/// The levels of the array member `key`. A missing member counts as no
/// levels, unless it is `required`; `None` where the member is missing
/// though required, is no array, or holds an item that spells no level.
pub open spec fn levels_member(j: Json, key: Seq<char>, required: bool, shape: Shape) -> Option<
    Seq<RawLevelView>,
> {
    match j.member(key) {
        Some(v) => match v.items() {
            Some(items) => levels_of(items, shape),
            None => None,
        },
        None => if required {
            None
        } else {
            Some(Seq::empty())
        },
    }
}

/// The levels of the array member `key` of `j`, as [`levels_member`] reads
/// them.
pub fn read_levels_member(j: &Json, key: &str, required: bool, shape: Shape) -> (r: Option<
    Vec<RawLevel>,
>)
    ensures
        r is Some == levels_member(*j, key@, required, shape) is Some,
        r matches Some(v) ==> levels_member(*j, key@, required, shape) == Some(
            raw_levels_view(v@),
        ),
{
    match j.get(key) {
        Some(v) => match v.as_array() {
            Some(items) => {
                let mut out: Vec<RawLevel> = Vec::new();
                let mut i: usize = 0;
                assert(items@.take(0) =~= Seq::<Json>::empty());
                assert(raw_levels_view(out@) =~= Seq::<RawLevelView>::empty());
                while i < items.len()
                    invariant
                        i <= items.len(),
                        v.items() == Some(items@),
                        j.member(key@) == Some(*v),
                        levels_of(items@.take(i as int), shape) == Some(raw_levels_view(out@)),
                    decreases items.len() - i,
                {
                    let ghost next = items@.take(i + 1);
                    assert(next.drop_last() =~= items@.take(i as int));
                    assert(next.last() == items@[i as int]);
                    match read_level(&items[i], shape) {
                        Some(level) => {
                            let ghost before = raw_levels_view(out@);
                            out.push(level);
                            assert(raw_levels_view(out@) =~= before.push(level@));
                        },
                        None => {
                            proof {
                                lemma_levels_of_fail(items@, shape, i as int);
                            }
                            return None;
                        },
                    }
                    i += 1;
                }
                assert(items@.take(i as int) =~= items@);
                Some(out)
            },
            None => None,
        },
        None => if required {
            None
        } else {
            let out: Vec<RawLevel> = Vec::new();
            assert(raw_levels_view(out@) =~= Seq::<RawLevelView>::empty());
            Some(out)
        },
    }
}

/// The two strings of the array member `key`, which must hold exactly two.
/// A missing member counts as two empty strings.
pub open spec fn pair_member(j: Json, key: Seq<char>) -> Option<RawLevelView> {
    match j.member(key) {
        Some(v) => level_of(v, Shape::Pair),
        None => Some(RawLevelView { price: Seq::empty(), quantity: Seq::empty() }),
    }
}

/// The two strings of the array member `key` of `j`, as [`pair_member`]
/// reads them: the first as the price, the second as the quantity.
pub fn read_pair_member(j: &Json, key: &str) -> (r: Option<RawLevel>)
    ensures
        r is Some == pair_member(*j, key@) is Some,
        r matches Some(l) ==> pair_member(*j, key@) == Some(l@),
{
    match j.get(key) {
        Some(v) => read_level(v, Shape::Pair),
        None => Some(RawLevel { price: String::new(), quantity: String::new() }),
    }
}

/// The strings of an array of strings; `None` for any other value.
pub open spec fn text_items(j: Json) -> Option<Seq<Seq<char>>> {
    match j.items() {
        Some(items) => if all_text(items) {
            Some(items.map_values(|i: Json| i.text()->0))
        } else {
            None
        },
        None => None,
    }
}

/// The strings of an array of strings, as [`text_items`] reads them.
pub fn read_text_items(j: &Json) -> (r: Option<Vec<String>>)
    ensures
        r is Some == text_items(*j) is Some,
        r matches Some(v) ==> text_items(*j) == Some(v@.map_values(|s: String| s@)),
{
    match j.as_array() {
        Some(items) => {
            let mut out: Vec<String> = Vec::new();
            let mut i: usize = 0;
            while i < items.len()
                invariant
                    i <= items.len(),
                    j.items() == Some(items@),
                    out@.len() == i,
                    forall|k: int| 0 <= k < i ==> (#[trigger] items@[k]).text() == Some(out@[k]@),
                decreases items.len() - i,
            {
                match items[i].as_text() {
                    Some(s) => {
                        out.push(s.clone());
                    },
                    None => {
                        assert(items@[i as int].text() is None);
                        return None;
                    },
                }
                i += 1;
            }
            assert(out@.map_values(|s: String| s@) =~= items@.map_values(|i: Json| i.text()->0));
            Some(out)
        },
        None => None,
    }
}

/// The book after the levels are inserted on `side`, first one first, and
/// whether every level was inserted: the insertions stop at the first level
/// whose price or quantity is no decimal.
pub open spec fn filled(book: Book, side: Side, levels: Seq<RawLevelView>) -> (Book, bool)
    decreases levels.len(),
{
    if levels.len() == 0 {
        (book, true)
    } else {
        match (decimal_read(levels[0].price), decimal_read(levels[0].quantity)) {
            (Some(price), Some(quantity)) => filled(
                book.inserted(side, price, quantity),
                side,
                levels.skip(1),
            ),
            _ => (book, false),
        }
    }
}

/// Inserts the levels on `side` of `book`, first one first, and stops at the
/// first level whose price or quantity is no decimal; tells whether every
/// level was inserted.
pub fn fill(book: &mut Orderbook, side: Side, levels: &Vec<RawLevel>) -> (done: bool)
    ensures
        (final(book)@, done) == filled(old(book)@, side, raw_levels_view(levels@)),
{
    let ghost all = raw_levels_view(levels@);
    let mut i: usize = 0;
    assert(all.skip(0) =~= all);
    while i < levels.len()
        invariant
            i <= levels.len(),
            all == raw_levels_view(levels@),
            filled(book@, side, all.skip(i as int)) == filled(old(book)@, side, all),
        decreases levels.len() - i,
    {
        let ghost rest = all.skip(i as int);
        assert(rest[0] == levels@[i as int]@);
        assert(rest.skip(1) =~= all.skip(i + 1));
        let price = match Decimal::parse(levels[i].price.as_str()) {
            Some(d) => d,
            None => {
                return false;
            },
        };
        let quantity = match Decimal::parse(levels[i].quantity.as_str()) {
            Some(d) => d,
            None => {
                return false;
            },
        };
        book.insert(side, price, quantity);
        i += 1;
    }
    true
}

/// The book after the bids and then the asks are inserted, and whether every
/// level was inserted: the insertions stop at the first level whose price or
/// quantity is no decimal.
pub open spec fn filled_both(book: Book, bids: Seq<RawLevelView>, asks: Seq<RawLevelView>) -> (
    Book,
    bool,
) {
    let with_bids = filled(book, Side::Bid, bids);
    if with_bids.1 {
        filled(with_bids.0, Side::Ask, asks)
    } else {
        with_bids
    }
}

/// Inserts the bids and then the asks into `book` and stops at the first
/// level whose price or quantity is no decimal; tells whether every level
/// was inserted.
pub fn fill_both(book: &mut Orderbook, bids: &Vec<RawLevel>, asks: &Vec<RawLevel>) -> (done: bool)
    ensures
        (final(book)@, done) == filled_both(
            old(book)@,
            raw_levels_view(bids@),
            raw_levels_view(asks@),
        ),
{
    if !fill(book, Side::Bid, bids) {
        return false;
    }
    fill(book, Side::Ask, asks)
}

/// What a parser without a state makes of a book that was filled.
pub open spec fn emitted(outcome: (Book, bool)) -> Reading {
    if outcome.1 {
        Ok(Some(outcome.0))
    } else {
        Err(FeedError::BadDecimal)
    }
}

/// The book after its volume and its last price are set from text: the
/// volume is set first and the last price second, and the work stops at the
/// first of the two that is no decimal.
pub open spec fn volume_then_last(book: Book, volume: Seq<char>, last: Seq<char>) -> (Book, bool) {
    match decimal_read(volume) {
        Some(v) => match decimal_read(last) {
            Some(p) => (Book { volume: v, last_price: p, ..book }, true),
            None => (Book { volume: v, ..book }, false),
        },
        None => (book, false),
    }
}

/// Sets the volume and then the last price of `book`; stops at the first of
/// the two that is no decimal and tells whether both were set.
pub fn set_volume_then_last(book: &mut Orderbook, volume: &str, last: &str) -> (done: bool)
    ensures
        (final(book)@, done) == volume_then_last(old(book)@, volume@, last@),
        final(book).timestamp == old(book).timestamp,
{
    match read_decimal(volume) {
        Ok(v) => {
            book.volume = v;
        },
        Err(_) => {
            return false;
        },
    }
    match read_decimal(last) {
        Ok(p) => {
            book.last_price = p;
        },
        Err(_) => {
            return false;
        },
    }
    true
}

/// The decimal that a text spells, or the error of a text that spells none.
pub fn read_decimal(text: &str) -> (r: Result<Decimal, FeedError>)
    ensures
        r is Ok == decimal_read(text@) is Some,
        r matches Ok(d) ==> decimal_read(text@) == Some(d@),
        r matches Err(e) ==> e == FeedError::BadDecimal,
{
    match Decimal::parse(text) {
        Some(d) => Ok(d),
        None => Err(FeedError::BadDecimal),
    }
}

} // verus!
