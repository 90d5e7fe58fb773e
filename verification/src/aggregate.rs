//! The cross-exchange view: every exchange's levels merged by price, and the
//! bounded summary that is published from it.

use crate::decimal::{
    decimal_difference, decimal_text, lemma_less_than_irreflexive, lemma_less_than_transitive,
    lemma_same_value_orders_alike, lemma_trichotomy, Dec, Decimal,
};
use crate::error::FeedError;
use crate::ladder::{lemma_filter_front, lowest, Quote};
use crate::names::NameMap;
use crate::orderbook::{Book, Orderbook};
use crate::text::{decimal_digits, u128_to_text};
use vstd::prelude::*;

verus! {

/// The number of levels that one merge takes from each side of a book, and
/// the number of entries that a summary lists for each side.
pub const DEPTH: usize = 10;

/// What one exchange offers at a price.
#[derive(Debug, PartialEq)]
pub struct Share {
    pub exchange: String,
    pub quantity: Decimal,
}

/// The mathematical reading of a [`Share`].
pub struct ShareView {
    pub exchange: Seq<char>,
    pub quantity: Dec,
}

impl View for Share {
    type V = ShareView;

    open spec fn view(&self) -> ShareView {
        ShareView { exchange: self.exchange@, quantity: self.quantity@ }
    }
}

/// A price and what the exchanges offer at it, in the order in which they
/// were merged.
#[derive(Debug, PartialEq)]
pub struct Tier {
    pub price: Decimal,
    pub shares: Vec<Share>,
}

/// The mathematical reading of a [`Tier`].
pub struct TierView {
    pub price: Dec,
    pub shares: Seq<ShareView>,
}

impl View for Tier {
    type V = TierView;

    open spec fn view(&self) -> TierView {
        TierView { price: self.price@, shares: self.shares@.map_values(|s: Share| s@) }
    }
}

/// Prices strictly increase along the tiers.
pub open spec fn tiers_ascending(s: Seq<TierView>) -> bool {
    forall|i: int, j: int|
        #![trigger s[i], s[j]]
        0 <= i < j < s.len() ==> s[i].price.less_than(s[j].price)
}

/// The tiers of `s` priced below `p`.
pub open spec fn tiers_below(s: Seq<TierView>, p: Dec) -> Seq<TierView> {
    s.filter(|t: TierView| t.price.less_than(p))
}

/// The tiers after `share` is added at price `p`: it joins the tier of that
/// price behind the shares that are there, or opens a tier of its own.
pub open spec fn with_share(s: Seq<TierView>, p: Dec, share: ShareView) -> Seq<TierView> {
    let pos = tiers_below(s, p).len() as int;
    if pos < s.len() && s[pos].price.same_value(p) {
        s.update(pos, TierView { price: s[pos].price, shares: s[pos].shares.push(share) })
    } else {
        s.insert(pos, TierView { price: p, shares: seq![share] })
    }
}

/// The tiers after the exchange's `levels` are added, first level first.
pub open spec fn with_shares(s: Seq<TierView>, exchange: Seq<char>, levels: Seq<Quote>) -> Seq<
    TierView,
>
    decreases levels.len(),
{
    if levels.len() == 0 {
        s
    } else {
        with_share(
            with_shares(s, exchange, levels.drop_last()),
            levels.last().price,
            ShareView { exchange, quantity: levels.last().quantity },
        )
    }
}

/// `pos` parts `s` into the tiers priced below `p` and the others.
pub open spec fn tiers_part_at(s: Seq<TierView>, p: Dec, pos: int) -> bool {
    &&& 0 <= pos <= s.len()
    &&& forall|i: int| 0 <= i < pos ==> (#[trigger] s[i]).price.less_than(p)
    &&& pos < s.len() ==> !s[pos].price.less_than(p)
}

/// Where the parting position is known, adding a share touches the tier at
/// that position or opens a tier there, and the prices stay ascending.
pub proof fn lemma_with_share_at(s: Seq<TierView>, p: Dec, share: ShareView, pos: int)
    requires
        tiers_ascending(s),
        tiers_part_at(s, p, pos),
    ensures
        tiers_below(s, p).len() == pos,
        tiers_ascending(with_share(s, p, share)),
{
    assert forall|j: int| pos <= j < s.len() implies !(#[trigger] s[j]).price.less_than(p) by {
        if j > pos && s[j].price.less_than(p) {
            assert(s[pos].price.less_than(s[j].price));
            lemma_less_than_transitive(s[pos].price, s[j].price, p);
        }
    }
    lemma_filter_front(s, |t: TierView| t.price.less_than(p), pos);
    let out = with_share(s, p, share);
    if pos < s.len() && s[pos].price.same_value(p) {
        assert forall|i: int, j: int| 0 <= i < j < out.len() implies out[i].price.less_than(
            out[j].price,
        ) by {
            assert(out[i].price == s[i].price && out[j].price == s[j].price);
        }
    } else {
        assert forall|j: int| pos <= j < s.len() implies p.less_than((#[trigger] s[j]).price) by {
            lemma_trichotomy(s[pos].price, p);
            lemma_trichotomy(s[j].price, p);
            if j > pos {
                assert(s[pos].price.less_than(s[j].price));
                if s[j].price.same_value(p) {
                    lemma_same_value_orders_alike(s[j].price, p, s[pos].price);
                }
            }
        }
        assert forall|i: int, j: int| 0 <= i < j < out.len() implies out[i].price.less_than(
            out[j].price,
        ) by {
            if j < pos {
                assert(out[i] == s[i] && out[j] == s[j]);
            } else if j == pos {
                assert(out[i] == s[i]);
            } else if i < pos {
                assert(out[i] == s[i] && out[j] == s[j - 1]);
            } else if i == pos {
                assert(out[j] == s[j - 1]);
            } else {
                assert(out[i] == s[i - 1] && out[j] == s[j - 1]);
            }
        }
    }
}

/// Every ascending run of tiers has a parting position for every price.
pub proof fn lemma_tiers_parting_position(s: Seq<TierView>, p: Dec) -> (pos: int)
    requires
        tiers_ascending(s),
    ensures
        tiers_part_at(s, p, pos),
    decreases s.len(),
{
    if s.len() == 0 {
        0
    } else {
        let front = s.drop_last();
        assert forall|i: int, j: int| 0 <= i < j < front.len() implies front[i].price.less_than(
            front[j].price,
        ) by {
            assert(front[i] == s[i] && front[j] == s[j]);
        }
        let k = lemma_tiers_parting_position(front, p);
        assert forall|i: int| 0 <= i < k implies (#[trigger] s[i]).price.less_than(p) by {
            assert(s[i] == front[i]);
        }
        if k == front.len() && s.last().price.less_than(p) {
            s.len() as int
        } else {
            if k < front.len() {
                assert(s[k] == front[k]);
            }
            k
        }
    }
}

/// Adding an exchange's levels keeps the prices ascending.
pub proof fn lemma_with_shares_ascending(s: Seq<TierView>, exchange: Seq<char>, levels: Seq<Quote>)
    requires
        tiers_ascending(s),
    ensures
        tiers_ascending(with_shares(s, exchange, levels)),
    decreases levels.len(),
{
    if levels.len() > 0 {
        lemma_with_shares_ascending(s, exchange, levels.drop_last());
        let before = with_shares(s, exchange, levels.drop_last());
        let pos = lemma_tiers_parting_position(before, levels.last().price);
        lemma_with_share_at(
            before,
            levels.last().price,
            ShareView { exchange, quantity: levels.last().quantity },
            pos,
        );
    }
}

/// The levels of all exchanges on one side, merged by price.
#[derive(Debug, PartialEq)]
pub struct Depth {
    tiers: Vec<Tier>,
}

impl View for Depth {
    type V = Seq<TierView>;

    closed spec fn view(&self) -> Seq<TierView> {
        self.tiers@.map_values(|t: Tier| t@)
    }
}

impl Depth {
    /// Holds of every depth: the prices of its tiers strictly increase.
    #[verifier::type_invariant]
    pub open spec fn wf(&self) -> bool {
        tiers_ascending(self@)
    }

    pub fn new() -> (r: Depth)
        ensures
            r@ == Seq::<TierView>::empty(),
    {
        let r = Depth { tiers: Vec::new() };
        assert(r@ =~= Seq::<TierView>::empty());
        r
    }

    pub fn len(&self) -> (r: usize)
        ensures
            r == self@.len(),
    {
        self.tiers.len()
    }

    /// The tier at place `i`, counted from the lowest price.
    pub fn get(&self, i: usize) -> (r: &Tier)
        requires
            i < self@.len(),
        ensures
            r@ == self@[i as int],
    {
        &self.tiers[i]
    }

    /// Adds what `exchange` offers at `price`.
    pub fn add(&mut self, price: Decimal, exchange: String, quantity: Decimal)
        ensures
            final(self)@ == with_share(
                old(self)@,
                price@,
                ShareView { exchange: exchange@, quantity: quantity@ },
            ),
    {
        proof {
            use_type_invariant(&*self);
        }
        let n: usize = self.tiers.len();
        let mut pos: usize = 0;
        while pos < n
            invariant
                pos <= n,
                n == self.tiers.len(),
                *self == *old(self),
                forall|i: int| 0 <= i < pos ==> (#[trigger] self@[i]).price.less_than(price@),
            ensures
                pos <= n,
                tiers_part_at(self@, price@, pos as int),
            decreases n - pos,
        {
            if !self.tiers[pos].price.less_than(&price) {
                break ;
            }
            pos += 1;
        }
        let ghost share = ShareView { exchange: exchange@, quantity: quantity@ };
        proof {
            lemma_with_share_at(old(self)@, price@, share, pos as int);
        }
        let mut tiers: Vec<Tier> = Vec::new();
        std::mem::swap(&mut self.tiers, &mut tiers);
        if pos < n && tiers[pos].price.same_value(&price) {
            let mut tier = tiers.remove(pos);
            let ghost before = tier@;
            tier.shares.push(Share { exchange, quantity });
            assert(tier@.shares =~= before.shares.push(share));
            tiers.insert(pos, tier);
            assert(tiers@.map_values(|t: Tier| t@) =~= with_share(old(self)@, price@, share));
        } else {
            let mut shares: Vec<Share> = Vec::new();
            shares.push(Share { exchange, quantity });
            let tier = Tier { price, shares };
            assert(tier@.shares =~= seq![share]);
            tiers.insert(pos, tier);
            assert(tiers@.map_values(|t: Tier| t@) =~= with_share(old(self)@, price@, share));
        }
        self.tiers = tiers;
    }
}

/// One entry of a summary: what an exchange offers at a price, in text.
#[derive(Debug, PartialEq)]
pub struct Level {
    pub exchange: String,
    pub price: String,
    pub amount: String,
}

/// The mathematical reading of a [`Level`].
pub struct LevelView {
    pub exchange: Seq<char>,
    pub price: Seq<char>,
    pub amount: Seq<char>,
}

impl View for Level {
    type V = LevelView;

    open spec fn view(&self) -> LevelView {
        LevelView { exchange: self.exchange@, price: self.price@, amount: self.amount@ }
    }
}

/// What an exchange offers at a price, before it is put in text.
pub struct Contribution {
    pub exchange: Seq<char>,
    pub price: Dec,
    pub amount: Dec,
}

/// The summary entry that shows a contribution.
pub open spec fn rendered(c: Contribution) -> LevelView {
    LevelView {
        exchange: c.exchange,
        price: decimal_text(c.price.unscaled, c.price.scale),
        amount: decimal_text(c.amount.unscaled, c.amount.scale),
    }
}

/// The contributions of one tier, in the order of its shares.
pub open spec fn tier_contributions(t: TierView) -> Seq<Contribution> {
    t.shares.map_values(
        |s: ShareView| Contribution { exchange: s.exchange, price: t.price, amount: s.quantity },
    )
}

/// The contributions of the tiers, tier by tier.
pub open spec fn contributions(tiers: Seq<TierView>) -> Seq<Contribution>
    decreases tiers.len(),
{
    if tiers.len() == 0 {
        Seq::empty()
    } else {
        contributions(tiers.drop_last()) + tier_contributions(tiers.last())
    }
}

/// The first `n` elements of `s`, or all of `s` if it has fewer.
pub open spec fn capped<A>(s: Seq<A>, n: int) -> Seq<A> {
    if s.len() > n {
        s.take(n)
    } else {
        s
    }
}

/// No entry is priced below an earlier one.
pub open spec fn non_decreasing(c: Seq<Contribution>) -> bool {
    forall|i: int, j: int|
        #![trigger c[i], c[j]]
        0 <= i < j < c.len() ==> !c[j].price.less_than(c[i].price)
}

/// No entry is priced above an earlier one.
pub open spec fn non_increasing(c: Seq<Contribution>) -> bool {
    forall|i: int, j: int|
        #![trigger c[i], c[j]]
        0 <= i < j < c.len() ==> !c[i].price.less_than(c[j].price)
}

/// The mathematical reading of a [`Summary`].
pub struct SummaryView {
    pub spread: Seq<char>,
    pub bids: Seq<LevelView>,
    pub asks: Seq<LevelView>,
    pub timestamp: Map<Seq<char>, Seq<char>>,
    pub volume: Map<Seq<char>, Seq<char>>,
    pub last_price: Map<Seq<char>, Seq<char>>,
}

/// What is published of the cross-exchange view: the spread, the best
/// entries of each side, and each exchange's time, volume and last price.
#[derive(Debug, PartialEq)]
pub struct Summary {
    pub spread: String,
    /// Highest price first; at one price, the exchange merged first comes
    /// first.
    pub bids: Vec<Level>,
    /// Lowest price first; at one price, the exchange merged first comes
    /// first.
    pub asks: Vec<Level>,
    pub timestamp: NameMap<String>,
    pub volume: NameMap<String>,
    pub last_price: NameMap<String>,
}

/// The map from each name to the characters of its text.
pub open spec fn text_map(m: NameMap<String>) -> Map<Seq<char>, Seq<char>> {
    m.map().map_values(|s: String| s@)
}

/// The map from each name to the reading of its decimal.
pub open spec fn decimal_map(m: NameMap<Decimal>) -> Map<Seq<char>, Dec> {
    m.map().map_values(|d: Decimal| d@)
}

impl View for Summary {
    type V = SummaryView;

    open spec fn view(&self) -> SummaryView {
        SummaryView {
            spread: self.spread@,
            bids: self.bids@.map_values(|l: Level| l@),
            asks: self.asks@.map_values(|l: Level| l@),
            timestamp: text_map(self.timestamp),
            volume: text_map(self.volume),
            last_price: text_map(self.last_price),
        }
    }
}

/// The mathematical reading of an [`AggregatedOrderbook`].
pub struct Aggregate {
    /// `None` before the first merge.
    pub spread: Option<Dec>,
    /// Bid tiers, lowest price first.
    pub bids: Seq<TierView>,
    /// Ask tiers, lowest price first.
    pub asks: Seq<TierView>,
    pub timestamp: Map<Seq<char>, u128>,
    pub volume: Map<Seq<char>, Dec>,
    pub last_price: Map<Seq<char>, Dec>,
}

impl Aggregate {
    /// The view into which nothing was merged.
    pub open spec fn empty() -> Aggregate {
        Aggregate {
            spread: None,
            bids: Seq::empty(),
            asks: Seq::empty(),
            timestamp: Map::empty(),
            volume: Map::empty(),
            last_price: Map::empty(),
        }
    }

    /// Holds of every view: the tiers of each side ascend in price.
    pub open spec fn wf(self) -> bool {
        tiers_ascending(self.bids) && tiers_ascending(self.asks)
    }

    /// The view after `book`, last changed at `time`, is merged into it.
    pub open spec fn merged(self, book: Book, time: u128) -> Aggregate {
        Aggregate {
            spread: Some(Dec::zero()),
            bids: with_shares(self.bids, book.name, lowest(book.bids, DEPTH as int)),
            asks: with_shares(self.asks, book.name, lowest(book.asks, DEPTH as int)),
            timestamp: self.timestamp.insert(book.name, time),
            volume: self.volume.insert(book.name, book.volume),
            last_price: self.last_price.insert(book.name, book.last_price),
        }
    }

    /// The bid entries of the summary before they are put in text: from the
    /// highest price down, cut off behind the tenth.
    pub open spec fn best_bids(self) -> Seq<Contribution> {
        capped(contributions(self.bids.reverse()), DEPTH as int)
    }

    /// The ask entries of the summary before they are put in text: from the
    /// lowest price up, cut off behind the tenth.
    pub open spec fn best_asks(self) -> Seq<Contribution> {
        capped(contributions(self.asks), DEPTH as int)
    }

    /// The best ask less the best bid, at the larger of their scales, in
    /// text; `0` where a side is empty.
    pub open spec fn spread_text(self) -> Seq<char> {
        if self.bids.len() > 0 && self.asks.len() > 0 {
            let d = decimal_difference(self.asks.first().price, self.bids.last().price);
            decimal_text(d.unscaled, d.scale)
        } else {
            "0"@
        }
    }

    /// What is published of the view.
    pub open spec fn summary(self) -> SummaryView {
        SummaryView {
            spread: self.spread_text(),
            bids: self.best_bids().map_values(|c: Contribution| rendered(c)),
            asks: self.best_asks().map_values(|c: Contribution| rendered(c)),
            timestamp: self.timestamp.map_values(|t: u128| decimal_digits(t as nat)),
            volume: self.volume.map_values(|d: Dec| decimal_text(d.unscaled, d.scale)),
            last_price: self.last_price.map_values(|d: Dec| decimal_text(d.unscaled, d.scale)),
        }
    }
}

/// The books of the exchanges merged into one view.
///
/// A view is built anew for each publication: made empty, fed the latest
/// book of each exchange once, and finalized.
#[derive(Debug, PartialEq)]
pub struct AggregatedOrderbook {
    /// Nothing before the first merge, zero after a merge; the published
    /// spread is worked out by [`AggregatedOrderbook::finalize`].
    pub spread: Option<Decimal>,
    pub bid: Depth,
    pub ask: Depth,
    pub timestamp: NameMap<u128>,
    pub volume: NameMap<Decimal>,
    pub last_price: NameMap<Decimal>,
}

impl View for AggregatedOrderbook {
    type V = Aggregate;

    open spec fn view(&self) -> Aggregate {
        Aggregate {
            spread: match self.spread {
                Some(d) => Some(d@),
                None => None,
            },
            bids: self.bid@,
            asks: self.ask@,
            timestamp: self.timestamp.map(),
            volume: decimal_map(self.volume),
            last_price: decimal_map(self.last_price),
        }
    }
}

/// Adds the first levels of `ladder`, at most [`DEPTH`] of them, to `depth`
/// under the name `exchange`.
fn add_levels(depth: &mut Depth, exchange: &String, ladder: &crate::ladder::Ladder)
    ensures
        final(depth)@ == with_shares(old(depth)@, exchange@, lowest(ladder@, DEPTH as int)),
{
    let n: usize = if ladder.len() < DEPTH {
        ladder.len()
    } else {
        DEPTH
    };
    let mut i: usize = 0;
    while i < n
        invariant
            i <= n,
            n <= ladder@.len(),
            depth@ == with_shares(old(depth)@, exchange@, ladder@.take(i as int)),
        decreases n - i,
    {
        let level = ladder.get(i);
        depth.add(level.price.clone(), exchange.clone(), level.quantity.clone());
        proof {
            let next = ladder@.take(i + 1);
            assert(next.drop_last() =~= ladder@.take(i as int));
            assert(next.last() == ladder@[i as int]);
        }
        i += 1;
    }
    assert(ladder@.take(n as int) =~= lowest(ladder@, DEPTH as int));
}

/// The entries of `depth` in text, at most [`DEPTH`] of them, from the lowest
/// price up or, if `descending`, from the highest price down.
fn collect_levels(depth: &Depth, descending: bool) -> (out: Vec<Level>)
    ensures
        out@.map_values(|l: Level| l@) == capped(
            contributions(
                if descending {
                    depth@.reverse()
                } else {
                    depth@
                },
            ),
            DEPTH as int,
        ).map_values(|c: Contribution| rendered(c)),
{
    let n: usize = depth.len();
    let ghost order = if descending {
        depth@.reverse()
    } else {
        depth@
    };
    let ghost mut taken: Seq<Contribution> = Seq::empty();
    let mut out: Vec<Level> = Vec::new();
    let mut k: usize = 0;
    assert(order.take(0) =~= Seq::<TierView>::empty());
    assert(out@.map_values(|l: Level| l@) =~= capped(taken, DEPTH as int).map_values(
        |c: Contribution| rendered(c),
    ));
    while k < n
        invariant
            k <= n,
            n == depth@.len(),
            order == if descending {
                depth@.reverse()
            } else {
                depth@
            },
            taken == contributions(order.take(k as int)),
            out@.map_values(|l: Level| l@) == capped(taken, DEPTH as int).map_values(
                |c: Contribution| rendered(c),
            ),
        decreases n - k,
    {
        let tier = depth.get(
            if descending {
                n - 1 - k
            } else {
                k
            },
        );
        assert(tier@ == order[k as int]);
        let price_text = tier.price.to_string();
        let m: usize = tier.shares.len();
        let ghost here = tier_contributions(tier@);
        let mut j: usize = 0;
        assert(taken + here.take(0) =~= taken);
        while j < m
            invariant
                j <= m,
                m == tier.shares@.len(),
                here == tier_contributions(tier@),
                price_text@ == decimal_text(tier@.price.unscaled, tier@.price.scale),
                out@.map_values(|l: Level| l@) == capped(
                    taken + here.take(j as int),
                    DEPTH as int,
                ).map_values(|c: Contribution| rendered(c)),
            decreases m - j,
        {
            let ghost before = taken + here.take(j as int);
            let ghost after = taken + here.take(j + 1);
            assert(after =~= before.push(here[j as int]));
            if out.len() < DEPTH {
                let share = &tier.shares[j];
                let level = Level {
                    exchange: share.exchange.clone(),
                    price: price_text.clone(),
                    amount: share.quantity.to_string(),
                };
                assert(level@ == rendered(here[j as int]));
                let ghost shown = out@.map_values(|l: Level| l@);
                out.push(level);
                assert(out@.map_values(|l: Level| l@) =~= shown.push(level@));
                assert(capped(after, DEPTH as int).map_values(|c: Contribution| rendered(c))
                    =~= shown.push(level@));
            } else {
                assert(out@.map_values(|l: Level| l@).len() == out@.len());
                assert(capped(before, DEPTH as int).map_values(|c: Contribution| rendered(c)).len()
                    == capped(before, DEPTH as int).len());
                assert(capped(after, DEPTH as int) =~= capped(before, DEPTH as int));
            }
            j += 1;
        }
        proof {
            assert(here.take(m as int) =~= here);
            let next = order.take(k + 1);
            assert(next.drop_last() =~= order.take(k as int));
            assert(next.last() == order[k as int]);
            taken = taken + here;
        }
        k += 1;
    }
    assert(order.take(n as int) =~= order);
    out
}

/// The times of `m` in decimal digits, name by name.
fn times_in_text(m: &NameMap<u128>) -> (out: NameMap<String>)
    ensures
        text_map(out) == m.map().map_values(|t: u128| decimal_digits(t as nat)),
{
    proof {
        use_type_invariant(m);
    }
    let mut out: NameMap<String> = NameMap::new();
    let n: usize = m.len();
    let mut i: usize = 0;
    while i < n
        invariant
            i <= n,
            n == m.names().len(),
            m.wf(),
            out.names() == m.names().take(i as int),
            out.values().len() == i,
            forall|j: int|
                0 <= j < i ==> (#[trigger] out.values()[j])@ == decimal_digits(
                    m.values()[j] as nat,
                ),
        decreases n - i,
    {
        let name = m.name_at(i).clone();
        let text = u128_to_text(*m.value_at(i));
        assert(!out.names().contains(name@)) by {
            if out.names().contains(name@) {
                let j = out.names().index_of(name@);
                assert(m.names()[j] == m.names()[i as int]);
            }
        }
        out.put(name, text);
        assert(out.names() =~= m.names().take(i + 1));
        i += 1;
    }
    proof {
        assert(m.names().take(n as int) =~= m.names());
        assert(text_map(out) =~= m.map().map_values(|t: u128| decimal_digits(t as nat)));
    }
    out
}

/// The decimals of `m` in text, name by name.
fn decimals_in_text(m: &NameMap<Decimal>) -> (out: NameMap<String>)
    ensures
        text_map(out) == decimal_map(*m).map_values(|d: Dec| decimal_text(d.unscaled, d.scale)),
{
    proof {
        use_type_invariant(m);
    }
    let mut out: NameMap<String> = NameMap::new();
    let n: usize = m.len();
    let mut i: usize = 0;
    while i < n
        invariant
            i <= n,
            n == m.names().len(),
            m.wf(),
            out.names() == m.names().take(i as int),
            out.values().len() == i,
            forall|j: int|
                0 <= j < i ==> (#[trigger] out.values()[j])@ == decimal_text(
                    m.values()[j]@.unscaled,
                    m.values()[j]@.scale,
                ),
        decreases n - i,
    {
        let name = m.name_at(i).clone();
        let text = m.value_at(i).to_string();
        assert(!out.names().contains(name@)) by {
            if out.names().contains(name@) {
                let j = out.names().index_of(name@);
                assert(m.names()[j] == m.names()[i as int]);
            }
        }
        out.put(name, text);
        assert(out.names() =~= m.names().take(i + 1));
        i += 1;
    }
    proof {
        assert(m.names().take(n as int) =~= m.names());
        assert(text_map(out) =~= decimal_map(*m).map_values(
            |d: Dec| decimal_text(d.unscaled, d.scale),
        ));
    }
    out
}

impl AggregatedOrderbook {
    /// Merges one exchange's book into the view: the first levels of each
    /// side, at most [`DEPTH`] of them, join the tiers of their prices behind
    /// what is there, and the exchange's time, volume and last price replace
    /// what was recorded under its name.
    pub fn merge(&mut self, orderbook: &Orderbook)
        ensures
            final(self)@ == old(self)@.merged(orderbook@, orderbook.timestamp),
            final(self)@.wf(),
    {
        add_levels(&mut self.bid, &orderbook.name, &orderbook.bid);
        add_levels(&mut self.ask, &orderbook.name, &orderbook.ask);
        self.spread = Some(Decimal::zero());
        self.timestamp.put(orderbook.name.clone(), orderbook.timestamp);
        self.volume.put(orderbook.name.clone(), orderbook.volume.clone());
        self.last_price.put(orderbook.name.clone(), orderbook.last_price.clone());
        proof {
            assert(decimal_map(self.volume) =~= decimal_map(old(self).volume).insert(
                orderbook@.name,
                orderbook@.volume,
            ));
            assert(decimal_map(self.last_price) =~= decimal_map(old(self).last_price).insert(
                orderbook@.name,
                orderbook@.last_price,
            ));
            use_type_invariant(&self.bid);
            use_type_invariant(&self.ask);
        }
    }

    /// The view into which nothing was merged.
    pub fn new() -> (r: AggregatedOrderbook)
        ensures
            r@ == Aggregate::empty(),
            r@.wf(),
    {
        let r = AggregatedOrderbook {
            spread: None,
            bid: Depth::new(),
            ask: Depth::new(),
            timestamp: NameMap::new(),
            last_price: NameMap::new(),
            volume: NameMap::new(),
        };
        assert(decimal_map(r.volume) =~= Map::<Seq<char>, Dec>::empty());
        assert(decimal_map(r.last_price) =~= Map::<Seq<char>, Dec>::empty());
        r
    }

    /// Works out what is published of the view. It always succeeds and leaves
    /// the view as it is. Each side lists at most [`DEPTH`] entries: bids from
    /// the highest price down, asks from the lowest price up, and at one price
    /// the exchanges in the order in which they were merged. The spread is
    /// the text of the best ask less the best bid.
    pub fn finalize(&mut self) -> (r: Result<Summary, FeedError>)
        ensures
            *final(self) == *old(self),
            r is Ok,
            r->Ok_0@ == old(self)@.summary(),
            r->Ok_0.bids@.len() <= DEPTH,
            r->Ok_0.asks@.len() <= DEPTH,
            non_increasing(old(self)@.best_bids()),
            non_decreasing(old(self)@.best_asks()),
    {
        let last_price = decimals_in_text(&self.last_price);
        let volume = decimals_in_text(&self.volume);
        let timestamp = times_in_text(&self.timestamp);
        let bids = collect_levels(&self.bid, true);
        let asks = collect_levels(&self.ask, false);
        let n: usize = self.bid.len();
        let spread = if n > 0 && self.ask.len() > 0 {
            let best_bid = &self.bid.get(n - 1).price;
            let best_ask = &self.ask.get(0).price;
            best_ask.minus(best_bid).to_string()
        } else {
            "0".to_owned()
        };
        let summary = Summary { spread, bids, asks, timestamp, last_price, volume };
        proof {
            use_type_invariant(&self.bid);
            use_type_invariant(&self.ask);
            law_summary_sorted(self@);
            assert(summary@.bids.len() == self@.best_bids().len());
            assert(summary@.asks.len() == self@.best_asks().len());
        }
        Ok(summary)
    }
}

/// Any two prices of `s` stand in the relation `ord`, the earlier first.
pub open spec fn tiers_ordered(s: Seq<TierView>, ord: spec_fn(Dec, Dec) -> bool) -> bool {
    forall|i: int, j: int|
        #![trigger s[i], s[j]]
        0 <= i < j < s.len() ==> ord(s[i].price, s[j].price)
}

/// Any two prices of `c` are the same or stand in the relation `ord`, the
/// earlier first.
pub open spec fn entries_ordered(c: Seq<Contribution>, ord: spec_fn(Dec, Dec) -> bool) -> bool {
    forall|i: int, j: int|
        #![trigger c[i], c[j]]
        0 <= i < j < c.len() ==> c[i].price == c[j].price || ord(c[i].price, c[j].price)
}

/// The price of `c` is the price of one of the tiers.
pub open spec fn priced_in(c: Contribution, s: Seq<TierView>) -> bool {
    exists|k: int| 0 <= k < s.len() && (#[trigger] s[k]).price == c.price
}

/// The contributions of tiers that are ordered by price are ordered by price.
pub proof fn lemma_contributions_ordered(s: Seq<TierView>, ord: spec_fn(Dec, Dec) -> bool)
    requires
        tiers_ordered(s, ord),
    ensures
        entries_ordered(contributions(s), ord),
        forall|i: int|
            0 <= i < contributions(s).len() ==> priced_in(#[trigger] contributions(s)[i], s),
    decreases s.len(),
{
    if s.len() > 0 {
        let front = s.drop_last();
        assert forall|i: int, j: int| 0 <= i < j < front.len() implies ord(
            front[i].price,
            front[j].price,
        ) by {
            assert(front[i] == s[i] && front[j] == s[j]);
        }
        lemma_contributions_ordered(front, ord);
        let head = contributions(front);
        let tail = tier_contributions(s.last());
        let all = contributions(s);
        assert(all == head + tail);
        assert forall|i: int| 0 <= i < all.len() implies priced_in(#[trigger] all[i], s) by {
            if i < head.len() {
                assert(all[i] == head[i]);
                assert(priced_in(head[i], front));
                let k = choose|k: int| 0 <= k < front.len() && (#[trigger] front[k]).price == head[i].price;
                assert(s[k] == front[k]);
            } else {
                assert(all[i] == tail[i - head.len()]);
                assert(s[s.len() - 1].price == all[i].price);
            }
        }
        assert forall|i: int, j: int| 0 <= i < j < all.len() implies all[i].price == all[j].price
            || ord(all[i].price, all[j].price) by {
            if j < head.len() {
                assert(all[i] == head[i] && all[j] == head[j]);
            } else if i < head.len() {
                assert(all[i] == head[i]);
                assert(all[j] == tail[j - head.len()]);
                assert(priced_in(head[i], front));
                let k = choose|k: int| 0 <= k < front.len() && (#[trigger] front[k]).price == head[i].price;
                assert(s[k] == front[k]);
                assert(ord(s[k].price, s[s.len() - 1].price));
            } else {
                assert(all[i] == tail[i - head.len()]);
                assert(all[j] == tail[j - head.len()]);
            }
        }
    }
}

/// Merging a book keeps the tiers of both sides ascending in price.
pub proof fn law_merge_keeps_order(agg: Aggregate, book: Book, time: u128)
    requires
        agg.wf(),
    ensures
        agg.merged(book, time).wf(),
{
    lemma_with_shares_ascending(agg.bids, book.name, lowest(book.bids, DEPTH as int));
    lemma_with_shares_ascending(agg.asks, book.name, lowest(book.asks, DEPTH as int));
}

/// The bid entries of a summary never rise in price and its ask entries never
/// fall in price.
pub proof fn law_summary_sorted(agg: Aggregate)
    requires
        agg.wf(),
    ensures
        non_increasing(agg.best_bids()),
        non_decreasing(agg.best_asks()),
        agg.summary().bids == agg.best_bids().map_values(|c: Contribution| rendered(c)),
        agg.summary().asks == agg.best_asks().map_values(|c: Contribution| rendered(c)),
{
    let falling = |a: Dec, b: Dec| b.less_than(a);
    let rising = |a: Dec, b: Dec| a.less_than(b);
    let down = agg.bids.reverse();
    assert forall|i: int, j: int| 0 <= i < j < down.len() implies falling(
        down[i].price,
        down[j].price,
    ) by {
        assert(down[i] == agg.bids[agg.bids.len() - 1 - i]);
        assert(down[j] == agg.bids[agg.bids.len() - 1 - j]);
    }
    lemma_contributions_ordered(down, falling);
    lemma_contributions_ordered(agg.asks, rising);
    let bids = contributions(down);
    let best_bids = agg.best_bids();
    assert forall|i: int, j: int| 0 <= i < j < best_bids.len() implies !best_bids[i].price.less_than(
        best_bids[j].price,
    ) by {
        assert(best_bids[i] == bids[i] && best_bids[j] == bids[j]);
        lemma_less_than_irreflexive(bids[i].price);
        lemma_trichotomy(bids[i].price, bids[j].price);
    }
    let asks = contributions(agg.asks);
    let best_asks = agg.best_asks();
    assert forall|i: int, j: int| 0 <= i < j < best_asks.len() implies !best_asks[j].price.less_than(
        best_asks[i].price,
    ) by {
        assert(best_asks[i] == asks[i] && best_asks[j] == asks[j]);
        lemma_less_than_irreflexive(asks[i].price);
        lemma_trichotomy(asks[i].price, asks[j].price);
    }
}

/// After two books are merged into an empty view, the bid entries of the
/// summary never rise in price and its ask entries never fall in price.
pub proof fn law_two_merges_sorted(a: Book, time_a: u128, b: Book, time_b: u128)
    ensures
        non_increasing(Aggregate::empty().merged(a, time_a).merged(b, time_b).best_bids()),
        non_decreasing(Aggregate::empty().merged(a, time_a).merged(b, time_b).best_asks()),
{
    law_merge_keeps_order(Aggregate::empty(), a, time_a);
    law_merge_keeps_order(Aggregate::empty().merged(a, time_a), b, time_b);
    law_summary_sorted(Aggregate::empty().merged(a, time_a).merged(b, time_b));
}

/// A summary lists at most [`DEPTH`] bid entries and at most [`DEPTH`] ask
/// entries, however many tiers the view holds.
pub proof fn law_summary_bounded(agg: Aggregate)
    ensures
        agg.summary().bids.len() <= DEPTH,
        agg.summary().asks.len() <= DEPTH,
{
}

} // verus!
