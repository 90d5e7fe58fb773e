//! One side of an order book: price levels kept in ascending price order.
//!
//! A ladder never holds two levels of the same numeric price, and every
//! quantity that it holds lies above zero. The model of a ladder is the
//! sequence of its levels, lowest price first.

use crate::decimal::{
    lemma_less_than_transitive, lemma_same_value_orders_alike, lemma_trichotomy, Dec, Decimal,
};
use vstd::prelude::*;

verus! {

/// A price and the quantity resting at it.
#[derive(Debug, PartialEq)]
pub struct PriceLevel {
    pub price: Decimal,
    pub quantity: Decimal,
}

/// The mathematical reading of a [`PriceLevel`].
pub struct Quote {
    pub price: Dec,
    pub quantity: Dec,
}

impl View for PriceLevel {
    type V = Quote;

    open spec fn view(&self) -> Quote {
        Quote { price: self.price@, quantity: self.quantity@ }
    }
}

impl Clone for PriceLevel {
    fn clone(&self) -> (r: PriceLevel)
        ensures
            r@ == self@,
    {
        PriceLevel { price: self.price.clone(), quantity: self.quantity.clone() }
    }
}

/// Prices strictly increase along the sequence.
pub open spec fn ascending(s: Seq<Quote>) -> bool {
    forall|i: int, j: int|
        #![trigger s[i], s[j]]
        0 <= i < j < s.len() ==> s[i].price.less_than(s[j].price)
}

/// Every quantity of the sequence lies above zero.
pub open spec fn quantities_positive(s: Seq<Quote>) -> bool {
    forall|i: int| 0 <= i < s.len() ==> (#[trigger] s[i]).quantity.is_positive()
}

/// What every ladder satisfies.
pub open spec fn well_formed(s: Seq<Quote>) -> bool {
    ascending(s) && quantities_positive(s)
}

/// The levels of `s` whose price differs in value from `p`.
pub open spec fn without_price(s: Seq<Quote>, p: Dec) -> Seq<Quote> {
    s.filter(|q: Quote| !q.price.same_value(p))
}

/// The levels of `s` priced below `p`.
pub open spec fn below(s: Seq<Quote>, p: Dec) -> Seq<Quote> {
    s.filter(|q: Quote| q.price.less_than(p))
}

/// The ladder after `(p, q)` is put into `s`: any level at price `p` leaves,
/// and where `q` lies above zero the new level enters behind the levels
/// priced below `p`.
pub open spec fn with_level(s: Seq<Quote>, p: Dec, q: Dec) -> Seq<Quote> {
    let rest = without_price(s, p);
    if q.is_positive() {
        rest.insert(below(rest, p).len() as int, Quote { price: p, quantity: q })
    } else {
        rest
    }
}

/// The `k` lowest-priced levels of `s`, or all of `s` if it has fewer.
pub open spec fn lowest(s: Seq<Quote>, k: int) -> Seq<Quote> {
    if k < s.len() {
        s.take(k)
    } else {
        s
    }
}

/// The `k` highest-priced levels of `s`, or all of `s` if it has fewer.
pub open spec fn highest(s: Seq<Quote>, k: int) -> Seq<Quote> {
    if k < s.len() {
        s.skip(s.len() - k)
    } else {
        s
    }
}

/// `pos` parts `s` into the levels priced below `p` and the others.
pub open spec fn parts_at(s: Seq<Quote>, p: Dec, pos: int) -> bool {
    &&& 0 <= pos <= s.len()
    &&& forall|i: int| 0 <= i < pos ==> (#[trigger] s[i]).price.less_than(p)
    &&& pos < s.len() ==> !s[pos].price.less_than(p)
}

pub proof fn lemma_filter_all<A>(s: Seq<A>, pred: spec_fn(A) -> bool)
    requires
        forall|i: int| 0 <= i < s.len() ==> pred(#[trigger] s[i]),
    ensures
        s.filter(pred) == s,
    decreases s.len(),
{
    reveal(Seq::filter);
    if s.len() > 0 {
        lemma_filter_all(s.drop_last(), pred);
        assert(s.drop_last().push(s.last()) =~= s);
    }
}

pub proof fn lemma_filter_none<A>(s: Seq<A>, pred: spec_fn(A) -> bool)
    requires
        forall|i: int| 0 <= i < s.len() ==> !pred(#[trigger] s[i]),
    ensures
        s.filter(pred) == Seq::<A>::empty(),
    decreases s.len(),
{
    reveal(Seq::filter);
    if s.len() > 0 {
        lemma_filter_none(s.drop_last(), pred);
    } else {
        assert(s =~= Seq::<A>::empty());
    }
}

/// A filter that only the element at `i` fails removes that element.
pub proof fn lemma_filter_one_out<A>(s: Seq<A>, pred: spec_fn(A) -> bool, i: int)
    requires
        0 <= i < s.len(),
        !pred(s[i]),
        forall|j: int| 0 <= j < s.len() && j != i ==> pred(#[trigger] s[j]),
    ensures
        s.filter(pred) == s.remove(i),
{
    let head = s.take(i);
    let mid = seq![s[i]];
    let tail = s.skip(i + 1);
    assert(s =~= head + mid + tail);
    Seq::filter_distributes_over_add(head + mid, tail, pred);
    Seq::filter_distributes_over_add(head, mid, pred);
    lemma_filter_all(head, pred);
    lemma_filter_none(mid, pred);
    lemma_filter_all(tail, pred);
    assert(head + Seq::<A>::empty() + tail =~= s.remove(i));
}

/// A filter that exactly the first `k` elements pass keeps those.
pub proof fn lemma_filter_front<A>(s: Seq<A>, pred: spec_fn(A) -> bool, k: int)
    requires
        0 <= k <= s.len(),
        forall|j: int| 0 <= j < k ==> pred(#[trigger] s[j]),
        forall|j: int| k <= j < s.len() ==> !pred(#[trigger] s[j]),
    ensures
        s.filter(pred) == s.take(k),
{
    let head = s.take(k);
    let tail = s.skip(k);
    assert(s =~= head + tail);
    Seq::filter_distributes_over_add(head, tail, pred);
    lemma_filter_all(head, pred);
    lemma_filter_none(tail, pred);
    assert(head + Seq::<A>::empty() =~= head);
}

/// From the parting position on, no level of an ascending ladder is priced
/// below `p`, and only the level at that position can have the price `p`.
pub proof fn lemma_parts_at(s: Seq<Quote>, p: Dec, pos: int)
    requires
        ascending(s),
        parts_at(s, p, pos),
    ensures
        forall|j: int| pos <= j < s.len() ==> !(#[trigger] s[j]).price.less_than(p),
        forall|j: int| 0 <= j < s.len() && j != pos ==> !(#[trigger] s[j]).price.same_value(p),
        forall|j: int| pos < j < s.len() ==> p.less_than((#[trigger] s[j]).price),
{
    assert forall|j: int| pos <= j < s.len() implies !(#[trigger] s[j]).price.less_than(p) by {
        if j > pos && s[j].price.less_than(p) {
            assert(s[pos].price.less_than(s[j].price));
            lemma_less_than_transitive(s[pos].price, s[j].price, p);
        }
    }
    assert forall|j: int| 0 <= j < s.len() && j != pos implies !(#[trigger] s[j]).price.same_value(
        p,
    ) by {
        lemma_trichotomy(s[j].price, p);
        if j > pos && s[j].price.same_value(p) {
            assert(s[pos].price.less_than(s[j].price));
            lemma_same_value_orders_alike(s[j].price, p, s[pos].price);
        }
    }
    assert forall|j: int| pos < j < s.len() implies p.less_than((#[trigger] s[j]).price) by {
        lemma_trichotomy(s[j].price, p);
    }
}

/// Where the parting position is known, putting a level is a removal at that
/// position, if the price is there, and an insertion at it, if the quantity
/// lies above zero.
pub proof fn lemma_with_level_at(s: Seq<Quote>, p: Dec, q: Dec, pos: int)
    requires
        ascending(s),
        parts_at(s, p, pos),
    ensures
        without_price(s, p) == (if pos < s.len() && s[pos].price.same_value(p) {
            s.remove(pos)
        } else {
            s
        }),
        parts_at(without_price(s, p), p, pos),
        pos < without_price(s, p).len() ==> p.less_than(without_price(s, p)[pos].price),
        below(without_price(s, p), p).len() == pos,
        ascending(without_price(s, p)),
        ascending(with_level(s, p, q)),
        quantities_positive(s) ==> quantities_positive(with_level(s, p, q)),
{
    lemma_parts_at(s, p, pos);
    let differs = |x: Quote| !x.price.same_value(p);
    let lower = |x: Quote| x.price.less_than(p);
    let rest = without_price(s, p);
    if pos < s.len() && s[pos].price.same_value(p) {
        lemma_filter_one_out(s, differs, pos);
        assert(rest == s.remove(pos));
    } else {
        lemma_filter_all(s, differs);
        assert(rest == s);
        if pos < s.len() {
            lemma_trichotomy(s[pos].price, p);
        }
    }
    assert(parts_at(rest, p, pos));
    assert forall|j: int| pos <= j < rest.len() implies !lower(#[trigger] rest[j]) && p.less_than(
        rest[j].price,
    ) by {
        if rest == s {
            lemma_trichotomy(s[j].price, p);
        } else {
            assert(rest[j] == s[j + 1]);
        }
    }
    lemma_filter_front(rest, lower, pos);
    assert(ascending(rest));
    if q.is_positive() {
        let level = Quote { price: p, quantity: q };
        let out = rest.insert(pos, level);
        assert(with_level(s, p, q) == out);
        assert forall|i: int, j: int| 0 <= i < j < out.len() implies out[i].price.less_than(
            out[j].price,
        ) by {
            if j < pos {
                assert(out[i] == rest[i] && out[j] == rest[j]);
            } else if j == pos {
                assert(out[i] == rest[i]);
            } else if i < pos {
                assert(out[i] == rest[i] && out[j] == rest[j - 1]);
            } else if i == pos {
                assert(out[j] == rest[j - 1]);
            } else {
                assert(out[i] == rest[i - 1] && out[j] == rest[j - 1]);
            }
        }
        if quantities_positive(s) {
            assert forall|i: int| 0 <= i < out.len() implies (#[trigger] out[i]).quantity.is_positive() by {
                if i < pos {
                    assert(out[i] == rest[i]);
                } else if i > pos {
                    assert(out[i] == rest[i - 1]);
                }
            }
        }
    }
}

/// Every ascending ladder has a parting position for every price.
pub proof fn lemma_parting_position(s: Seq<Quote>, p: Dec) -> (pos: int)
    requires
        ascending(s),
    ensures
        parts_at(s, p, pos),
    decreases s.len(),
{
    if s.len() == 0 {
        0
    } else {
        let front = s.drop_last();
        assert forall|i: int, j: int| 0 <= i < j < front.len() implies front[i].price.less_than(
            front[j].price,
        ) by {
            assert(front[i] == s[i] && front[j] == s[j]);
        }
        let k = lemma_parting_position(front, p);
        assert forall|i: int| 0 <= i < k implies (#[trigger] s[i]).price.less_than(p) by {
            assert(s[i] == front[i]);
        }
        if k == front.len() && s.last().price.less_than(p) {
            s.len() as int
        } else {
            if k < front.len() {
                assert(s[k] == front[k]);
            }
            k
        }
    }
}

/// Putting a level into a well-formed ladder leaves a well-formed ladder.
pub proof fn lemma_with_level_well_formed(s: Seq<Quote>, p: Dec, q: Dec)
    requires
        well_formed(s),
    ensures
        well_formed(with_level(s, p, q)),
{
    let pos = lemma_parting_position(s, p);
    lemma_with_level_at(s, p, q, pos);
}

/// One side of an order book.
#[derive(Debug, PartialEq)]
pub struct Ladder {
    levels: Vec<PriceLevel>,
}

impl View for Ladder {
    type V = Seq<Quote>;

    closed spec fn view(&self) -> Seq<Quote> {
        self.levels@.map_values(|l: PriceLevel| l@)
    }
}

impl Ladder {
    /// Holds of every ladder: ascending prices, every quantity above zero.
    #[verifier::type_invariant]
    pub open spec fn wf(&self) -> bool {
        well_formed(self@)
    }

    pub fn new() -> (r: Ladder)
        ensures
            r@ == Seq::<Quote>::empty(),
    {
        let r = Ladder { levels: Vec::new() };
        assert(r@ =~= Seq::<Quote>::empty());
        r
    }

    pub fn len(&self) -> (r: usize)
        ensures
            r == self@.len(),
    {
        self.levels.len()
    }

    /// The level at place `i`, counted from the lowest price.
    pub fn get(&self, i: usize) -> (r: &PriceLevel)
        requires
            i < self@.len(),
        ensures
            r@ == self@[i as int],
    {
        &self.levels[i]
    }

    /// The level of the lowest price.
    pub fn first(&self) -> (r: Option<&PriceLevel>)
        ensures
            self@.len() == 0 ==> r is None,
            self@.len() > 0 ==> r is Some && r->0@ == self@.first(),
    {
        if self.levels.len() == 0 {
            None
        } else {
            Some(&self.levels[0])
        }
    }

    /// The level of the highest price.
    pub fn last(&self) -> (r: Option<&PriceLevel>)
        ensures
            self@.len() == 0 ==> r is None,
            self@.len() > 0 ==> r is Some && r->0@ == self@.last(),
    {
        let n: usize = self.levels.len();
        if n == 0 {
            None
        } else {
            Some(&self.levels[n - 1])
        }
    }

    /// Sets the quantity at `price`: a level at that price leaves, and where
    /// `quantity` lies above zero a level with it enters.
    pub fn put(&mut self, price: Decimal, quantity: Decimal)
        ensures
            final(self)@ == with_level(old(self)@, price@, quantity@),
    {
        proof {
            use_type_invariant(&*self);
        }
        let n: usize = self.levels.len();
        let mut pos: usize = 0;
        while pos < n
            invariant
                pos <= n,
                n == self.levels.len(),
                *self == *old(self),
                forall|i: int| 0 <= i < pos ==> (#[trigger] self@[i]).price.less_than(price@),
            ensures
                pos <= n,
                parts_at(self@, price@, pos as int),
            decreases n - pos,
        {
            if !self.levels[pos].price.less_than(&price) {
                break ;
            }
            pos += 1;
        }
        proof {
            lemma_with_level_at(old(self)@, price@, quantity@, pos as int);
        }
        let mut levels: Vec<PriceLevel> = Vec::new();
        std::mem::swap(&mut self.levels, &mut levels);
        if pos < n && levels[pos].price.same_value(&price) {
            levels.remove(pos);
        }
        assert(levels@.map_values(|l: PriceLevel| l@) =~= without_price(old(self)@, price@));
        if quantity.is_positive() {
            let ghost level = Quote { price: price@, quantity: quantity@ };
            levels.insert(pos, PriceLevel { price, quantity });
            assert(levels@.map_values(|l: PriceLevel| l@) =~= without_price(
                old(self)@,
                price@,
            ).insert(pos as int, level));
        }
        self.levels = levels;
    }

    /// Empties the ladder.
    pub fn clear(&mut self)
        ensures
            final(self)@ == Seq::<Quote>::empty(),
    {
        self.levels = Vec::new();
        assert(self@ =~= Seq::<Quote>::empty());
    }

    /// Keeps the `k` lowest-priced levels and drops the others.
    pub fn keep_lowest(&mut self, k: usize)
        ensures
            final(self)@ == lowest(old(self)@, k as int),
    {
        proof {
            use_type_invariant(&*self);
        }
        if k < self.levels.len() {
            let mut levels: Vec<PriceLevel> = Vec::new();
            std::mem::swap(&mut self.levels, &mut levels);
            levels.truncate(k);
            assert(levels@.map_values(|l: PriceLevel| l@) =~= old(self)@.take(k as int));
            self.levels = levels;
        }
    }

    /// Keeps the `k` highest-priced levels and drops the others.
    pub fn keep_highest(&mut self, k: usize)
        ensures
            final(self)@ == highest(old(self)@, k as int),
    {
        proof {
            use_type_invariant(&*self);
        }
        let n: usize = self.levels.len();
        if k < n {
            let mut levels: Vec<PriceLevel> = Vec::new();
            std::mem::swap(&mut self.levels, &mut levels);
            let kept = levels.split_off(n - k);
            assert(kept@.map_values(|l: PriceLevel| l@) =~= old(self)@.skip(n - k));
            self.levels = kept;
        }
    }
}

impl Clone for Ladder {
    fn clone(&self) -> (r: Ladder)
        ensures
            r@ == self@,
    {
        proof {
            use_type_invariant(self);
        }
        let mut levels: Vec<PriceLevel> = Vec::new();
        let mut i: usize = 0;
        while i < self.levels.len()
            invariant
                i <= self.levels.len(),
                levels@.map_values(|l: PriceLevel| l@) == self@.take(i as int),
            decreases self.levels.len() - i,
        {
            let level = self.levels[i].clone();
            let ghost before = levels@.map_values(|l: PriceLevel| l@);
            levels.push(level);
            assert(levels@.map_values(|l: PriceLevel| l@) =~= before.push(level@));
            assert(self@.take(i + 1) =~= self@.take(i as int).push(self@[i as int]));
            i += 1;
        }
        assert(self@.take(i as int) =~= self@);
        Ladder { levels }
    }
}

} // verus!
