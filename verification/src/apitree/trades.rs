//! The trades of the last 24 hours, from which the volume of an exchange is
//! summed up that tells none.

use crate::decimal::{decimal_sum, Dec, Decimal};
use crate::ladder::{lemma_filter_all, lemma_filter_front, lemma_filter_none, lemma_filter_one_out};
use vstd::prelude::*;

verus! {

/// The seconds of the window over which the volume is summed up.
pub const WINDOW_SECS: i64 = 86400;

/// A point in time: seconds since the Unix epoch and nanoseconds within the
/// second.
#[derive(Clone, Copy, Debug, PartialEq, Eq, Structural)]
pub struct Moment {
    pub secs: i64,
    pub nanos: u32,
}

/// Whether `a` comes before `b`.
pub open spec fn before(a: Moment, b: Moment) -> bool {
    a.secs < b.secs || (a.secs == b.secs && a.nanos < b.nanos)
}

impl Moment {
    /// Whether `self` comes before `other`.
    pub fn is_before(&self, other: &Moment) -> (r: bool)
        ensures
            r == before(*self, *other),
    {
        self.secs < other.secs || (self.secs == other.secs && self.nanos < other.nanos)
    }

    /// The moment 24 hours before `self`, or the earliest second that there
    /// is where that would lie before it.
    pub open spec fn day_before(self) -> Moment {
        Moment {
            secs: if self.secs < i64::MIN + WINDOW_SECS {
                i64::MIN
            } else {
                (self.secs - WINDOW_SECS) as i64
            },
            nanos: self.nanos,
        }
    }

    /// The moment 24 hours before `self`.
    pub fn a_day_before(&self) -> (r: Moment)
        ensures
            r == self.day_before(),
    {
        Moment {
            secs: if self.secs < i64::MIN + WINDOW_SECS {
                i64::MIN
            } else {
                self.secs - WINDOW_SECS
            },
            nanos: self.nanos,
        }
    }
}

/// A trade: when it was made and how much was traded.
#[derive(Debug, PartialEq)]
pub struct Trade {
    pub at: Moment,
    pub amount: Decimal,
}

/// The mathematical reading of a [`Trade`].
pub struct TradeView {
    pub at: Moment,
    pub amount: Dec,
}

impl View for Trade {
    type V = TradeView;

    open spec fn view(&self) -> TradeView {
        TradeView { at: self.at, amount: self.amount@ }
    }
}

/// The readings of a list of trades.
pub open spec fn trades_view(trades: Seq<Trade>) -> Seq<TradeView> {
    trades.map_values(|t: Trade| t@)
}

/// Each trade comes before the next.
pub open spec fn trades_ascending(s: Seq<TradeView>) -> bool {
    forall|i: int, j: int| #![trigger s[i], s[j]] 0 <= i < j < s.len() ==> before(s[i].at, s[j].at)
}

/// The trades after `t` is recorded: it takes the place of a trade of the
/// same moment and stands behind the trades that come before it.
pub open spec fn with_trade(s: Seq<TradeView>, t: TradeView) -> Seq<TradeView> {
    let rest = s.filter(|x: TradeView| x.at != t.at);
    rest.insert(rest.filter(|x: TradeView| before(x.at, t.at)).len() as int, t)
}

/// The trades after each of `more` is recorded, first one first.
pub open spec fn with_trades(s: Seq<TradeView>, more: Seq<TradeView>) -> Seq<TradeView>
    decreases more.len(),
{
    if more.len() == 0 {
        s
    } else {
        with_trade(with_trades(s, more.drop_last()), more.last())
    }
}

/// Whether `at` lies in the window that ends at `now`: after `past` and not
/// after `now`.
pub open spec fn within(at: Moment, past: Moment, now: Moment) -> bool {
    before(past, at) && !before(now, at)
}

/// The sum of the amounts of the trades within the window, added up from
/// zero in the order of the trades.
pub open spec fn volume_within(s: Seq<TradeView>, past: Moment, now: Moment) -> Dec
    decreases s.len(),
{
    if s.len() == 0 {
        Dec::zero()
    } else if within(s.last().at, past, now) {
        decimal_sum(volume_within(s.drop_last(), past, now), s.last().amount)
    } else {
        volume_within(s.drop_last(), past, now)
    }
}

/// The trades that do not come before `past`.
pub open spec fn since(s: Seq<TradeView>, past: Moment) -> Seq<TradeView> {
    s.filter(|x: TradeView| !before(x.at, past))
}

/// `pos` parts `s` into the trades that come before `at` and the others.
pub open spec fn trades_part_at(s: Seq<TradeView>, at: Moment, pos: int) -> bool {
    &&& 0 <= pos <= s.len()
    &&& forall|i: int| 0 <= i < pos ==> before((#[trigger] s[i]).at, at)
    &&& pos < s.len() ==> !before(s[pos].at, at)
}

/// From the parting position on, no trade comes before `at`, and only the
/// trade at that position can be of the moment `at`.
pub proof fn lemma_trades_part_at(s: Seq<TradeView>, at: Moment, pos: int)
    requires
        trades_ascending(s),
        trades_part_at(s, at, pos),
    ensures
        forall|j: int| pos <= j < s.len() ==> !before((#[trigger] s[j]).at, at),
        forall|j: int| 0 <= j < s.len() && j != pos ==> (#[trigger] s[j]).at != at,
        forall|j: int| pos < j < s.len() ==> before(at, (#[trigger] s[j]).at),
{
    assert forall|j: int| pos <= j < s.len() implies !before((#[trigger] s[j]).at, at) by {
        if j > pos {
            assert(before(s[pos].at, s[j].at));
        }
    }
    assert forall|j: int| 0 <= j < s.len() && j != pos implies (#[trigger] s[j]).at != at by {
        if j > pos {
            assert(before(s[pos].at, s[j].at));
        }
    }
    assert forall|j: int| pos < j < s.len() implies before(at, (#[trigger] s[j]).at) by {
        assert(before(s[pos].at, s[j].at));
    }
}

/// The trades without a trade of the moment `at`, where the parting
/// position is known.
pub open spec fn cleared_at(s: Seq<TradeView>, at: Moment, pos: int) -> Seq<TradeView> {
    if pos < s.len() && s[pos].at == at {
        s.remove(pos)
    } else {
        s
    }
}

/// Taking the trade of a moment out keeps the parting position.
pub proof fn lemma_cleared_at(s: Seq<TradeView>, at: Moment, pos: int)
    requires
        trades_ascending(s),
        trades_part_at(s, at, pos),
    ensures
        s.filter(|x: TradeView| x.at != at) == cleared_at(s, at, pos),
        trades_ascending(cleared_at(s, at, pos)),
        forall|i: int| 0 <= i < pos ==> before((#[trigger] cleared_at(s, at, pos)[i]).at, at),
        forall|j: int|
            pos <= j < cleared_at(s, at, pos).len() ==> before(
                at,
                (#[trigger] cleared_at(s, at, pos)[j]).at,
            ),
{
    lemma_trades_part_at(s, at, pos);
    let differs = |x: TradeView| x.at != at;
    let rest = cleared_at(s, at, pos);
    if pos < s.len() && s[pos].at == at {
        lemma_filter_one_out(s, differs, pos);
        assert forall|i: int, j: int| 0 <= i < j < rest.len() implies before(
            rest[i].at,
            rest[j].at,
        ) by {
            assert(rest[i] == s[if i < pos { i } else { i + 1 }]);
            assert(rest[j] == s[if j < pos { j } else { j + 1 }]);
        }
        assert forall|j: int| pos <= j < rest.len() implies before(at, (#[trigger] rest[j]).at) by {
            assert(rest[j] == s[j + 1]);
        }
    } else {
        lemma_filter_all(s, differs);
    }
}

/// Where the parting position is known, recording a trade is a removal at
/// that position, if a trade of that moment is there, and an insertion at
/// it; the trades stay ascending.
pub proof fn lemma_with_trade_at(s: Seq<TradeView>, t: TradeView, pos: int)
    requires
        trades_ascending(s),
        trades_part_at(s, t.at, pos),
    ensures
        with_trade(s, t) == cleared_at(s, t.at, pos).insert(pos, t),
        trades_ascending(with_trade(s, t)),
{
    lemma_cleared_at(s, t.at, pos);
    let rest = cleared_at(s, t.at, pos);
    let earlier = |x: TradeView| before(x.at, t.at);
    assert forall|j: int| pos <= j < rest.len() implies !earlier(#[trigger] rest[j]) by {
        assert(before(t.at, rest[j].at));
    }
    lemma_filter_front(rest, earlier, pos);
    let out = rest.insert(pos, t);
    assert(with_trade(s, t) == out);
    assert forall|i: int, j: int| 0 <= i < j < out.len() implies before(out[i].at, out[j].at) by {
        if j < pos {
            assert(out[i] == rest[i] && out[j] == rest[j]);
        } else if j == pos {
            assert(out[i] == rest[i]);
        } else if i < pos {
            assert(out[i] == rest[i] && out[j] == rest[j - 1]);
        } else if i == pos {
            assert(out[j] == rest[j - 1]);
        } else {
            assert(out[i] == rest[i - 1] && out[j] == rest[j - 1]);
        }
    }
}

/// Where the parting position of `past` is known, the trades since `past`
/// are those from that position on.
pub proof fn lemma_since_at(s: Seq<TradeView>, past: Moment, pos: int)
    requires
        trades_ascending(s),
        trades_part_at(s, past, pos),
    ensures
        since(s, past) == s.skip(pos),
        trades_ascending(s.skip(pos)),
{
    lemma_trades_part_at(s, past, pos);
    let later = |x: TradeView| !before(x.at, past);
    let head = s.take(pos);
    let tail = s.skip(pos);
    assert(s =~= head + tail);
    Seq::filter_distributes_over_add(head, tail, later);
    lemma_filter_none(head, later);
    lemma_filter_all(tail, later);
    assert(Seq::<TradeView>::empty() + tail =~= tail);
    assert forall|i: int, j: int| 0 <= i < j < tail.len() implies before(tail[i].at, tail[j].at) by {
        assert(tail[i] == s[pos + i] && tail[j] == s[pos + j]);
    }
}

/// The trades of the last 24 hours and later. Each comes before the next,
/// and no two are of the same moment.
#[derive(Debug, PartialEq)]
pub struct TradeWindow {
    trades: Vec<Trade>,
}

impl View for TradeWindow {
    type V = Seq<TradeView>;

    closed spec fn view(&self) -> Seq<TradeView> {
        trades_view(self.trades@)
    }
}

impl TradeWindow {
    /// Holds of every window: each trade comes before the next.
    #[verifier::type_invariant]
    pub open spec fn wf(&self) -> bool {
        trades_ascending(self@)
    }

    pub fn new() -> (r: TradeWindow)
        ensures
            r@ == Seq::<TradeView>::empty(),
    {
        let r = TradeWindow { trades: Vec::new() };
        assert(r@ =~= Seq::<TradeView>::empty());
        r
    }

    pub fn len(&self) -> (r: usize)
        ensures
            r == self@.len(),
    {
        self.trades.len()
    }

    /// The place of the first trade that does not come before `at`.
    fn parting(&self, at: &Moment) -> (pos: usize)
        ensures
            trades_part_at(self@, *at, pos as int),
    {
        let n: usize = self.trades.len();
        let mut pos: usize = 0;
        while pos < n
            invariant
                pos <= n,
                n == self.trades.len(),
                forall|i: int| 0 <= i < pos ==> before((#[trigger] self@[i]).at, *at),
            ensures
                pos <= n,
                trades_part_at(self@, *at, pos as int),
            decreases n - pos,
        {
            if !self.trades[pos].at.is_before(at) {
                break ;
            }
            pos += 1;
        }
        pos
    }

    /// Records a trade; it takes the place of a trade of the same moment.
    pub fn record(&mut self, trade: Trade)
        ensures
            final(self)@ == with_trade(old(self)@, trade@),
    {
        proof {
            use_type_invariant(&*self);
        }
        let pos = self.parting(&trade.at);
        proof {
            lemma_with_trade_at(old(self)@, trade@, pos as int);
        }
        let mut trades: Vec<Trade> = Vec::new();
        std::mem::swap(&mut self.trades, &mut trades);
        if pos < trades.len() && trades[pos].at == trade.at {
            trades.remove(pos);
        }
        let ghost added = trade@;
        let ghost before_insert = trades_view(trades@);
        trades.insert(pos, trade);
        assert(trades_view(trades@) =~= before_insert.insert(pos as int, added));
        assert(before_insert =~= cleared_at(old(self)@, added.at, pos as int));
        self.trades = trades;
    }

    /// The sum of the amounts of the trades after `past` and not after
    /// `now`.
    pub fn volume(&self, past: &Moment, now: &Moment) -> (r: Decimal)
        ensures
            r@ == volume_within(self@, *past, *now),
    {
        let mut total = Decimal::zero();
        let mut i: usize = 0;
        assert(self@.take(0) =~= Seq::<TradeView>::empty());
        while i < self.trades.len()
            invariant
                i <= self.trades.len(),
                total@ == volume_within(self@.take(i as int), *past, *now),
            decreases self.trades.len() - i,
        {
            let ghost next = self@.take(i + 1);
            assert(next.drop_last() =~= self@.take(i as int));
            assert(next.last() == self@[i as int]);
            let trade = &self.trades[i];
            if past.is_before(&trade.at) && !now.is_before(&trade.at) {
                total = total.plus(&trade.amount);
            }
            i += 1;
        }
        assert(self@.take(i as int) =~= self@);
        total
    }

    /// Drops the trades that come before `past`.
    pub fn prune(&mut self, past: &Moment)
        ensures
            final(self)@ == since(old(self)@, *past),
    {
        proof {
            use_type_invariant(&*self);
        }
        let pos = self.parting(past);
        proof {
            lemma_since_at(old(self)@, *past, pos as int);
        }
        let mut trades: Vec<Trade> = Vec::new();
        std::mem::swap(&mut self.trades, &mut trades);
        let kept = trades.split_off(pos);
        assert(trades_view(kept@) =~= old(self)@.skip(pos as int));
        self.trades = kept;
    }
}

} // verus!
