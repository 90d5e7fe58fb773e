//! The driver of one exchange's feed.
//!
//! The driver decides and its caller acts: the caller opens the stream that
//! [`Exchange::connect`] plans, hands each frame to [`Exchange::next`] and
//! asks [`Exchange::tick`] before each read whether a heartbeat is due or the
//! session has reached its age limit.

use crate::apitree::channels::{books_view, Books};
use crate::apitree::restapi::{polled, requests_of, rest_entry};
use crate::apitree::trades::{Moment, TradeView, TradeWindow};
use crate::apitree::wire::{reading_of, Reading};
use crate::apitree::{rest, ws};
use crate::apitree::wsapi::{
    parsed, rendered, subscriptions, ws_entry, Api, ApiView, Parser, ParserKind,
    SUBSCRIBED_DEPTH, render,
};
use crate::error::FeedError;
use crate::orderbook::{Book, Orderbook};
use crate::text::{join, joined, utf8_to_text};
use vstd::prelude::*;
use vstd::utf8::{
    decode_utf8, encode_utf8, encode_utf8_decode_utf8, encode_utf8_valid_utf8, valid_utf8,
};

verus! {

/// The depth that a book is trimmed to before it is emitted.
pub const EMITTED_DEPTH: u32 = 10;

/// How one pair of an exchange is configured.
#[derive(Debug, PartialEq)]
pub struct ExchangeSetting {
    pub pair: String,
    /// The seconds between two polls; 0 stands for 1.
    pub wait_secs: u64,
    /// Whether the exchange is read over its stream; it is polled otherwise.
    pub ws_api: bool,
}

/// The mathematical reading of an [`ExchangeSetting`].
pub struct SettingView {
    pub pair: Seq<char>,
    pub wait_secs: u64,
    pub ws_api: bool,
}

impl View for ExchangeSetting {
    type V = SettingView;

    open spec fn view(&self) -> SettingView {
        SettingView { pair: self.pair@, wait_secs: self.wait_secs, ws_api: self.ws_api }
    }
}

/// The readings of a list of settings.
pub open spec fn settings_view(settings: Seq<ExchangeSetting>) -> Seq<SettingView> {
    settings.map_values(|e: ExchangeSetting| e@)
}

/// The reading of a plan that may have failed.
pub open spec fn plan_of(r: Result<Plan, FeedError>) -> Result<PlanView, FeedError> {
    match r {
        Ok(plan) => Ok(plan@),
        Err(e) => Err(e),
    }
}

impl Clone for ExchangeSetting {
    fn clone(&self) -> (r: ExchangeSetting)
        ensures
            r@ == self@,
    {
        ExchangeSetting { pair: self.pair.clone(), wait_secs: self.wait_secs, ws_api: self.ws_api }
    }
}

/// One frame of a stream.
#[derive(Debug, PartialEq)]
pub enum Frame {
    Text(Vec<u8>),
    Binary(Vec<u8>),
    /// The first fragment of a text message that comes in parts.
    FirstText(Vec<u8>),
    /// The first fragment of a binary message that comes in parts.
    FirstBinary(Vec<u8>),
    /// A fragment between the first and the last.
    Continue(Vec<u8>),
    /// The last fragment of a message that comes in parts.
    Last(Vec<u8>),
    Ping,
    Pong,
    Close,
}

/// The mathematical reading of a [`Frame`].
pub enum FrameView {
    Whole(Seq<u8>),
    Part(Seq<u8>),
    LastPart(Seq<u8>),
    Control,
    Close,
}

impl View for Frame {
    type V = FrameView;

    open spec fn view(&self) -> FrameView {
        match self {
            Frame::Text(b) => FrameView::Whole(b@),
            Frame::Binary(b) => FrameView::Whole(b@),
            Frame::FirstText(b) => FrameView::Part(b@),
            Frame::FirstBinary(b) => FrameView::Part(b@),
            Frame::Continue(b) => FrameView::Part(b@),
            Frame::Last(b) => FrameView::LastPart(b@),
            Frame::Ping => FrameView::Control,
            Frame::Pong => FrameView::Control,
            Frame::Close => FrameView::Close,
        }
    }
}

/// What the caller is to do to connect.
#[derive(Debug, PartialEq)]
pub enum Plan {
    /// Nothing: the exchange is polled.
    Poll,
    /// Open the stream at `url` and send each of `frames` as a text frame.
    Stream { url: String, frames: Vec<String> },
}

/// The mathematical reading of a [`Plan`].
pub enum PlanView {
    Poll,
    Stream { url: Seq<char>, frames: Seq<Seq<char>> },
}

impl View for Plan {
    type V = PlanView;

    open spec fn view(&self) -> PlanView {
        match self {
            Plan::Poll => PlanView::Poll,
            Plan::Stream { url, frames } => PlanView::Stream {
                url: url@,
                frames: frames@.map_values(|s: String| s@),
            },
        }
    }
}

/// What is due before the next read.
#[derive(Debug, PartialEq)]
pub struct Due {
    /// The payload of a heartbeat to send as a binary frame.
    pub heartbeat: Option<String>,
    /// Whether the session has reached its age limit and must be closed.
    pub reconnect: bool,
}

/// The mathematical reading of a [`Due`].
pub struct DueView {
    pub heartbeat: Option<Seq<char>>,
    pub reconnect: bool,
}

impl View for Due {
    type V = DueView;

    open spec fn view(&self) -> DueView {
        DueView {
            heartbeat: match self.heartbeat {
                Some(payload) => Some(payload@),
                None => None,
            },
            reconnect: self.reconnect,
        }
    }
}

/// The reading of what is due, where that could be told.
pub open spec fn due_of(r: Result<Due, FeedError>) -> Result<DueView, FeedError> {
    match r {
        Ok(due) => Ok(due@),
        Err(e) => Err(e),
    }
}

/// The mathematical reading of an [`Exchange`].
pub struct Session {
    pub name: Seq<char>,
    pub level: u32,
    pub connected: bool,
    pub cache: Seq<char>,
    pub ws_api: bool,
    pub pairs: Seq<Seq<char>>,
    pub wait_secs: u64,
    pub heartbeat_ts: Option<u64>,
    pub reconnect_ts: Option<u64>,
    /// The kind of the parser; `None` where the exchange has no stream.
    pub kind: Option<ParserKind>,
    /// The books that the parser keeps.
    pub books: Books,
}

/// The driver of one exchange's feed.
#[derive(Debug, PartialEq)]
pub struct Exchange {
    pub name: String,
    /// The depth that a book is trimmed to before it is emitted.
    pub level: u32,
    /// Whether the stream is open.
    pub connected: bool,
    /// The text of the fragments that came since the last whole message.
    pub cache: String,
    pub ws_api: bool,
    pub pairs: Vec<String>,
    pub wait_secs: u64,
    /// When the last heartbeat was sent, in seconds on the caller's clock.
    pub heartbeat_ts: Option<u64>,
    /// When the age of the session began to count, in seconds on the
    /// caller's clock.
    pub reconnect_ts: Option<u64>,
    /// The reader of the exchange's frames; `None` where the exchange has no
    /// stream.
    pub parser: Option<Parser>,
}

impl View for Exchange {
    type V = Session;

    open spec fn view(&self) -> Session {
        Session {
            name: self.name@,
            level: self.level,
            connected: self.connected,
            cache: self.cache@,
            ws_api: self.ws_api,
            pairs: self.pairs@.map_values(|s: String| s@),
            wait_secs: self.wait_secs,
            heartbeat_ts: self.heartbeat_ts,
            reconnect_ts: self.reconnect_ts,
            kind: match self.parser {
                Some(p) => Some(p.kind),
                None => None,
            },
            books: match self.parser {
                Some(p) => books_view(p.books),
                None => Map::empty(),
            },
        }
    }
}

/// The frames that subscribe to each of the pairs, pair by pair; `None`
/// where a template cannot be filled.
pub open spec fn all_subscriptions(templates: Seq<Seq<char>>, pairs: Seq<Seq<char>>) -> Option<
    Seq<Seq<char>>,
>
    decreases pairs.len(),
{
    if pairs.len() == 0 {
        Some(Seq::empty())
    } else {
        match (
            all_subscriptions(templates, pairs.drop_last()),
            subscriptions(templates, pairs.last(), SUBSCRIBED_DEPTH),
        ) {
            (Some(front), Some(last)) => Some(front + last),
            _ => None,
        }
    }
}

/// Where the frames of one pair cannot be had, those of all cannot.
pub proof fn lemma_all_subscriptions_fail(
    templates: Seq<Seq<char>>,
    pairs: Seq<Seq<char>>,
    i: int,
)
    requires
        0 <= i < pairs.len(),
        subscriptions(templates, pairs[i], SUBSCRIBED_DEPTH) is None,
    ensures
        all_subscriptions(templates, pairs) is None,
    decreases pairs.len(),
{
    if i < pairs.len() - 1 {
        assert(pairs.drop_last()[i] == pairs[i]);
        lemma_all_subscriptions_fail(templates, pairs.drop_last(), i);
    }
}

/// What is to be done to open the stream of an exchange for the pairs: the
/// pairs go into the address, joined by commas, or into frames that are
/// sent once the stream is open.
pub open spec fn stream_plan(api: ApiView, pairs: Seq<Seq<char>>) -> Result<PlanView, FeedError> {
    if api.render_url {
        match rendered(api.endpoint, seq![joined(pairs, ","@)]) {
            Some(url) => Ok(PlanView::Stream { url, frames: Seq::empty() }),
            None => Err(FeedError::BadTemplate),
        }
    } else {
        match all_subscriptions(api.subscribe_template, pairs) {
            Some(frames) => Ok(PlanView::Stream { url: api.endpoint, frames }),
            None => Err(FeedError::BadTemplate),
        }
    }
}

impl Session {
    /// The session of a driver that was just made for the exchange `name`.
    pub open spec fn fresh(name: Seq<char>) -> Session {
        Session {
            name,
            level: EMITTED_DEPTH,
            connected: false,
            cache: Seq::empty(),
            ws_api: true,
            pairs: Seq::empty(),
            wait_secs: 0,
            heartbeat_ts: None,
            reconnect_ts: None,
            kind: match ws_entry(name) {
                Some(api) => Some(api.parse),
                None => None,
            },
            books: Map::empty(),
        }
    }

    /// The session after it was configured with `settings`, and what is to
    /// be done to connect. The pairs are taken over even where there are
    /// none, which is an error. The first setting decides whether the
    /// exchange is streamed or polled and how long a poll waits, which is a
    /// second where the setting says 0.
    pub open spec fn configured(self, settings: Seq<SettingView>) -> (
        Session,
        Result<PlanView, FeedError>,
    ) {
        let pairs = settings.map_values(|e: SettingView| e.pair);
        if settings.len() == 0 {
            (Session { pairs, ..self }, Err(FeedError::NoPairs))
        } else {
            let next = Session {
                pairs,
                wait_secs: if settings[0].wait_secs > 0 {
                    settings[0].wait_secs
                } else {
                    1
                },
                ws_api: settings[0].ws_api,
                ..self
            };
            if !settings[0].ws_api {
                (next, Ok(PlanView::Poll))
            } else {
                match ws_entry(self.name) {
                    Some(api) => (next, stream_plan(api, pairs)),
                    None => (next, Err(FeedError::UnsupportedExchange)),
                }
            }
        }
    }

    /// The session after `text` was fed to its parser, and what the text
    /// yields: a book is trimmed to the session's depth before it is
    /// emitted.
    pub open spec fn fed(self, text: Seq<char>) -> (Session, Reading)
        recommends
            self.kind is Some,
    {
        let (books, reading) = parsed(self.kind->0, self.books, text);
        (
            Session { books, ..self },
            match reading {
                Ok(Some(book)) => Ok(Some(book.trimmed(self.level as int))),
                other => other,
            },
        )
    }

    /// The session after a frame, and what the frame yields.
    ///
    /// A whole message is fed to the parser. A fragment that is not the last
    /// is added to the cache and yields nothing. The last fragment is fed
    /// to the parser together with what the cache holds, and the cache is
    /// emptied. Pings and pongs yield nothing; a close is an error. Bytes
    /// that are no UTF-8 are an error and change nothing.
    pub open spec fn stepped(self, frame: FrameView) -> (Session, Reading) {
        if !self.ws_api || !self.connected {
            (self, Err(FeedError::NotConnected))
        } else if self.kind is None {
            (self, Err(FeedError::UnsupportedExchange))
        } else {
            match frame {
                FrameView::Whole(b) => if valid_utf8(b) {
                    self.fed(decode_utf8(b))
                } else {
                    (self, Err(FeedError::BadText))
                },
                FrameView::Part(b) => if valid_utf8(b) {
                    (Session { cache: self.cache + decode_utf8(b), ..self }, Ok(None))
                } else {
                    (self, Err(FeedError::BadText))
                },
                FrameView::LastPart(b) => if valid_utf8(b) {
                    (Session { cache: Seq::empty(), ..self }).fed(self.cache + decode_utf8(b))
                } else {
                    (self, Err(FeedError::BadText))
                },
                FrameView::Control => (self, Ok(None)),
                FrameView::Close => (self, Err(FeedError::Closed)),
            }
        }
    }

    /// Whether more than `limit` seconds have passed from `since` to `now`.
    pub open spec fn overdue(since: Option<u64>, limit: u64, now: u64) -> bool {
        since is Some && now > since->0 && now - since->0 > limit
    }

    /// The time from which a timer counts: a timer that has a limit and does
    /// not run yet starts to run at `now`.
    pub open spec fn started(since: Option<u64>, limit: u64, now: u64) -> Option<u64> {
        if since is None && limit > 0 {
            Some(now)
        } else {
            since
        }
    }

    /// Whether a heartbeat is due at the time `now`: more than the interval
    /// has passed since the last one.
    pub open spec fn heartbeat_due(self, api: ApiView, now: u64) -> bool {
        Session::overdue(
            Session::started(self.heartbeat_ts, heartbeat_interval(api), now),
            heartbeat_interval(api),
            now,
        )
    }

    /// Whether the session has reached its age limit at the time `now`.
    pub open spec fn reconnect_due(self, api: ApiView, now: u64) -> bool {
        Session::overdue(
            Session::started(self.reconnect_ts, age_limit(api), now),
            age_limit(api),
            now,
        )
    }

    /// The session after the timers were looked at at the time `now`: a
    /// timer that does not run yet starts to run, and a heartbeat that is
    /// due counts as sent.
    pub open spec fn ticked(self, api: ApiView, now: u64) -> Session {
        Session {
            heartbeat_ts: if self.heartbeat_due(api, now) {
                Some(now)
            } else {
                Session::started(self.heartbeat_ts, heartbeat_interval(api), now)
            },
            reconnect_ts: Session::started(self.reconnect_ts, age_limit(api), now),
            ..self
        }
    }
}

impl Session {
    /// The session after the timers were looked at at the time `now`, and
    /// what is due. A session without an open stream and an exchange
    /// without a stream are errors that change nothing.
    pub open spec fn timed(self, now: u64) -> (Session, Result<DueView, FeedError>) {
        if !self.ws_api || !self.connected {
            (self, Err(FeedError::NotConnected))
        } else {
            match ws_entry(self.name) {
                None => (self, Err(FeedError::UnsupportedExchange)),
                Some(api) => (
                    self.ticked(api, now),
                    Ok(
                        DueView {
                            heartbeat: if self.heartbeat_due(api, now) {
                                Some(heartbeat_payload(api))
                            } else {
                                None
                            },
                            reconnect: self.reconnect_due(api, now),
                        },
                    ),
                ),
            }
        }
    }
}

/// The seconds between two heartbeats; 0 for an exchange without heartbeat.
pub open spec fn heartbeat_interval(api: ApiView) -> u64 {
    match api.heartbeat {
        Some((secs, _)) => secs,
        None => 0,
    }
}

/// What a heartbeat carries; nothing for an exchange without heartbeat.
pub open spec fn heartbeat_payload(api: ApiView) -> Seq<char> {
    match api.heartbeat {
        Some((_, payload)) => payload,
        None => ""@,
    }
}

/// The age in seconds at which a session must be renewed; 0 for an exchange
/// without such a limit.
pub open spec fn age_limit(api: ApiView) -> u64 {
    match api.reconnect_sec {
        Some(age) => age,
        None => 0,
    }
}

/// The frames that subscribe to each of the pairs, pair by pair.
fn subscribe_all(api: &Api, pairs: &Vec<String>) -> (r: Result<Vec<String>, FeedError>)
    ensures
        r is Ok == all_subscriptions(
            api@.subscribe_template,
            pairs@.map_values(|s: String| s@),
        ) is Some,
        r matches Ok(frames) ==> all_subscriptions(
            api@.subscribe_template,
            pairs@.map_values(|s: String| s@),
        ) == Some(frames@.map_values(|s: String| s@)),
        r matches Err(e) ==> e == FeedError::BadTemplate,
{
    let ghost names = pairs@.map_values(|s: String| s@);
    let ghost templates = api@.subscribe_template;
    let mut frames: Vec<String> = Vec::new();
    let mut i: usize = 0;
    assert(names.take(0) =~= Seq::<Seq<char>>::empty());
    assert(frames@.map_values(|s: String| s@) =~= Seq::<Seq<char>>::empty());
    while i < pairs.len()
        invariant
            i <= pairs.len(),
            names == pairs@.map_values(|s: String| s@),
            templates == api@.subscribe_template,
            all_subscriptions(templates, names.take(i as int)) == Some(
                frames@.map_values(|s: String| s@),
            ),
        decreases pairs.len() - i,
    {
        let ghost next = names.take(i + 1);
        assert(next.drop_last() =~= names.take(i as int));
        assert(next.last() == pairs@[i as int]@);
        match api.subscribe_text(pairs[i].as_str(), SUBSCRIBED_DEPTH) {
            Ok(requests) => {
                let ghost before = frames@.map_values(|s: String| s@);
                let ghost added = requests@.map_values(|s: String| s@);
                let mut requests = requests;
                frames.append(&mut requests);
                assert(frames@.map_values(|s: String| s@) =~= before + added);
            },
            Err(e) => {
                proof {
                    lemma_all_subscriptions_fail(templates, names, i as int);
                }
                return Err(e);
            },
        }
        i += 1;
    }
    assert(names.take(i as int) =~= names);
    Ok(frames)
}

/// What is to be done to open the stream of `api` for the pairs.
fn plan_stream(api: &Api, pairs: &Vec<String>) -> (r: Result<Plan, FeedError>)
    ensures
        plan_of(r) == stream_plan(api@, pairs@.map_values(|s: String| s@)),
{
    if api.render_url {
        let mut args: Vec<String> = Vec::new();
        args.push(join(pairs, ","));
        assert(args@.map_values(|s: String| s@) =~= seq![
            joined(pairs@.map_values(|s: String| s@), ","@),
        ]);
        match render(api.endpoint, &args) {
            Ok(url) => {
                let frames: Vec<String> = Vec::new();
                assert(frames@.map_values(|s: String| s@) =~= Seq::<Seq<char>>::empty());
                Ok(Plan::Stream { url, frames })
            },
            Err(e) => Err(e),
        }
    } else {
        match subscribe_all(api, pairs) {
            Ok(frames) => Ok(Plan::Stream { url: api.endpoint.to_owned(), frames }),
            Err(e) => Err(e),
        }
    }
}

impl Exchange {
    /// A driver for the exchange `name`, not yet configured and not
    /// connected.
    pub fn new(name: &str) -> (r: Exchange)
        ensures
            r@ == Session::fresh(name@),
    {
        let parser = match ws(name) {
            Ok(api) => Some(api.parser()),
            Err(_) => None,
        };
        let r = Exchange {
            name: name.to_owned(),
            level: EMITTED_DEPTH,
            connected: false,
            cache: String::new(),
            ws_api: true,
            pairs: Vec::new(),
            wait_secs: 0,
            heartbeat_ts: None,
            reconnect_ts: None,
            parser,
        };
        assert(r@.pairs =~= Seq::<Seq<char>>::empty());
        r
    }

    /// Configures the driver and says what is to be done to connect. The
    /// first setting decides whether the exchange is streamed or polled and
    /// how long a poll waits. Once the caller has done what the plan says,
    /// it calls [`Exchange::established`].
    pub fn connect(&mut self, pairs: Vec<ExchangeSetting>) -> (r: Result<Plan, FeedError>)
        ensures
            (final(self)@, plan_of(r)) == old(self)@.configured(settings_view(pairs@)),
    {
        let ghost wanted = settings_view(pairs@).map_values(|e: SettingView| e.pair);
        let mut names: Vec<String> = Vec::new();
        let mut i: usize = 0;
        assert(names@.map_values(|s: String| s@) =~= wanted.take(0));
        while i < pairs.len()
            invariant
                i <= pairs.len(),
                wanted == settings_view(pairs@).map_values(|e: SettingView| e.pair),
                names@.map_values(|s: String| s@) == wanted.take(i as int),
            decreases pairs.len() - i,
        {
            let ghost before = names@.map_values(|s: String| s@);
            names.push(pairs[i].pair.clone());
            assert(names@.map_values(|s: String| s@) =~= before.push(pairs@[i as int].pair@));
            assert(wanted.take(i + 1) =~= wanted.take(i as int).push(wanted[i as int]));
            i += 1;
        }
        assert(wanted.take(i as int) =~= wanted);
        self.pairs = names;
        if pairs.len() == 0 {
            return Err(FeedError::NoPairs);
        }
        self.wait_secs = if pairs[0].wait_secs > 0 {
            pairs[0].wait_secs
        } else {
            1
        };
        self.ws_api = pairs[0].ws_api;
        if !self.ws_api {
            return Ok(Plan::Poll);
        }
        match ws(self.name.as_str()) {
            Ok(api) => plan_stream(&api, &self.pairs),
            Err(e) => Err(e),
        }
    }

    /// Marks the stream as open.
    pub fn established(&mut self)
        ensures
            final(self)@ == (Session { connected: true, ..old(self)@ }),
    {
        self.connected = true;
    }

    /// Drops the books that the parser keeps, as is done when a session
    /// ends. An exchange without a stream is an error.
    pub fn clear(&mut self) -> (r: Result<(), FeedError>)
        ensures
            old(self)@.kind is Some ==> r is Ok && final(self)@ == (Session {
                books: Map::empty(),
                ..old(self)@
            }),
            old(self)@.kind is None ==> r == Err::<(), FeedError>(FeedError::UnsupportedExchange)
                && final(self)@ == old(self)@,
    {
        match self.parser.take() {
            Some(p) => {
                let mut p = p;
                p.clear();
                self.parser = Some(p);
                Ok(())
            },
            None => Err(FeedError::UnsupportedExchange),
        }
    }

    /// Feeds `text` to the parser and trims the book that it yields.
    fn feed(&mut self, text: &str) -> (r: Result<Option<Orderbook>, FeedError>)
        requires
            old(self)@.kind is Some,
        ensures
            (final(self)@, reading_of(r)) == old(self)@.fed(text@),
    {
        match self.parser.take() {
            Some(p) => {
                let mut p = p;
                let out = p.parse(text);
                self.parser = Some(p);
                match out {
                    Ok(Some(book)) => {
                        let mut book = book;
                        book.trim(self.level);
                        Ok(Some(book))
                    },
                    Ok(None) => Ok(None),
                    Err(e) => Err(e),
                }
            },
            None => Err(FeedError::UnsupportedExchange),
        }
    }

    /// Takes one frame of the stream: yields the book to emit, nothing for
    /// a frame that carries none, or an error.
    pub fn next(&mut self, frame: Frame) -> (r: Result<Option<Orderbook>, FeedError>)
        ensures
            (final(self)@, reading_of(r)) == old(self)@.stepped(frame@),
    {
        if !self.ws_api || !self.connected {
            return Err(FeedError::NotConnected);
        }
        if self.parser.is_none() {
            return Err(FeedError::UnsupportedExchange);
        }
        match frame {
            Frame::Text(bytes) | Frame::Binary(bytes) => match utf8_to_text(&bytes) {
                Some(raw) => self.feed(raw.as_str()),
                None => Err(FeedError::BadText),
            },
            Frame::FirstText(bytes) | Frame::FirstBinary(bytes) | Frame::Continue(
                bytes,
            ) => match utf8_to_text(&bytes) {
                Some(part) => {
                    self.cache.append(part.as_str());
                    Ok(None)
                },
                None => Err(FeedError::BadText),
            },
            Frame::Last(bytes) => match utf8_to_text(&bytes) {
                Some(part) => {
                    let mut output = self.cache.clone();
                    output.append(part.as_str());
                    self.cache = String::new();
                    self.feed(output.as_str())
                },
                None => Err(FeedError::BadText),
            },
            Frame::Ping | Frame::Pong => Ok(None),
            Frame::Close => Err(FeedError::Closed),
        }
    }

    /// Looks at the timers at the time `now`, in seconds on the caller's
    /// clock, and says what is due before the next read. Where a heartbeat
    /// is due, it counts as sent; where the session has reached its age
    /// limit, the caller closes it.
    pub fn tick(&mut self, now: u64) -> (r: Result<Due, FeedError>)
        ensures
            (final(self)@, due_of(r)) == old(self)@.timed(now),
    {
        if !self.ws_api || !self.connected {
            return Err(FeedError::NotConnected);
        }
        let api = match ws(self.name.as_str()) {
            Ok(api) => api,
            Err(e) => {
                return Err(e);
            },
        };
        let (interval, payload) = match api.heartbeat {
            Some((secs, text)) => (secs, text),
            None => (0, ""),
        };
        let age: u64 = match api.reconnect_sec {
            Some(a) => a,
            None => 0,
        };
        if self.heartbeat_ts.is_none() && interval > 0 {
            self.heartbeat_ts = Some(now);
        }
        if self.reconnect_ts.is_none() && age > 0 {
            self.reconnect_ts = Some(now);
        }
        let mut heartbeat: Option<String> = None;
        match self.heartbeat_ts {
            Some(since) => {
                if now > since && now - since > interval {
                    self.heartbeat_ts = Some(now);
                    heartbeat = Some(payload.to_owned());
                }
            },
            None => {},
        }
        let reconnect = match self.reconnect_ts {
            Some(since) => now > since && now - since > age,
            None => false,
        };
        Ok(Due { heartbeat, reconnect })
    }
}

/// What the caller is to do for one poll.
#[derive(Debug, PartialEq)]
pub struct PollPlan {
    /// The seconds to wait before the requests are made.
    pub wait_secs: u64,
    /// The addresses to fetch, in the order in which the answers are to be
    /// handed to [`Exchange::polled`].
    pub requests: Vec<String>,
}

impl Session {
    /// The requests of one poll: those that build a book of the first pair.
    /// A driver without pairs, an exchange that is not polled, and a pair
    /// that is not written as the exchange needs it are errors.
    pub open spec fn poll_requests(self) -> Result<Seq<Seq<char>>, FeedError> {
        if self.pairs.len() == 0 {
            Err(FeedError::NoPairs)
        } else {
            match rest_entry(self.name) {
                Some(api) => match requests_of(api, self.pairs[0]) {
                    Some(urls) => Ok(urls),
                    None => Err(FeedError::BadPair),
                },
                None => Err(FeedError::UnsupportedExchange),
            }
        }
    }

    /// The window of trades after the answers of one poll are read at the
    /// time `now`, and what they yield: the book that they give, trimmed to
    /// the session's depth.
    pub open spec fn poll_read(self, window: Seq<TradeView>, answers: Seq<Seq<char>>, now: Moment) -> (
        Seq<TradeView>,
        Reading,
    ) {
        match rest_entry(self.name) {
            Some(api) => {
                let (kept, book) = polled(api.orderbook, window, answers, now);
                (
                    kept,
                    match book {
                        Ok(b) => Ok(Some(b.trimmed(self.level as int))),
                        Err(e) => Err(e),
                    },
                )
            },
            None => (window, Err(FeedError::UnsupportedExchange)),
        }
    }
}

impl Exchange {
    /// Says what is to be fetched for one poll, and after what wait.
    pub fn poll(&self) -> (r: Result<PollPlan, FeedError>)
        ensures
            r is Ok == self@.poll_requests() is Ok,
            r matches Ok(plan) ==> plan.wait_secs == self.wait_secs && self@.poll_requests()
                == Ok::<Seq<Seq<char>>, FeedError>(plan.requests@.map_values(|s: String| s@)),
            r matches Err(e) ==> self@.poll_requests() == Err::<Seq<Seq<char>>, FeedError>(e),
    {
        if self.pairs.len() == 0 {
            return Err(FeedError::NoPairs);
        }
        let api = match rest(self.name.as_str()) {
            Ok(api) => api,
            Err(e) => {
                return Err(e);
            },
        };
        assert(self@.pairs[0] == self.pairs@[0]@);
        match api.requests(self.pairs[0].as_str()) {
            Ok(requests) => Ok(PollPlan { wait_secs: self.wait_secs, requests }),
            Err(e) => Err(e),
        }
    }

    /// Reads the answers of one poll at the time `now` and yields the book
    /// that they give, trimmed.
    pub fn polled(&self, window: &mut TradeWindow, answers: &Vec<String>, now: Moment) -> (r: Result<
        Option<Orderbook>,
        FeedError,
    >)
        ensures
            (final(window)@, reading_of(r)) == self@.poll_read(
                old(window)@,
                answers@.map_values(|s: String| s@),
                now,
            ),
    {
        let api = match rest(self.name.as_str()) {
            Ok(api) => api,
            Err(e) => {
                return Err(e);
            },
        };
        match api.book(window, answers, now) {
            Ok(book) => {
                let mut book = book;
                book.trim(self.level);
                Ok(Some(book))
            },
            Err(e) => Err(e),
        }
    }
}

/// The texts of `parts` in a row.
pub open spec fn concatenated(parts: Seq<Seq<char>>) -> Seq<char>
    decreases parts.len(),
{
    if parts.len() == 0 {
        Seq::empty()
    } else {
        concatenated(parts.drop_last()) + parts.last()
    }
}

/// The fragments that carry the texts of `parts`, none of them the last of
/// its message.
pub open spec fn part_frames(parts: Seq<Seq<char>>) -> Seq<FrameView> {
    parts.map_values(|t: Seq<char>| FrameView::Part(encode_utf8(t)))
}

impl Session {
    /// The session after the frames, first one first.
    pub open spec fn after_frames(self, frames: Seq<FrameView>) -> Session
        decreases frames.len(),
    {
        if frames.len() == 0 {
            self
        } else {
            self.after_frames(frames.drop_last()).stepped(frames.last()).0
        }
    }
}

/// Fragments that are not the last only fill the cache.
pub proof fn lemma_parts_fill_cache(s: Session, parts: Seq<Seq<char>>)
    requires
        s.ws_api,
        s.connected,
        s.kind is Some,
    ensures
        s.after_frames(part_frames(parts)) == (Session {
            cache: s.cache + concatenated(parts),
            ..s
        }),
    decreases parts.len(),
{
    if parts.len() == 0 {
        assert(s.cache + concatenated(parts) =~= s.cache);
    } else {
        let front = parts.drop_last();
        lemma_parts_fill_cache(s, front);
        assert(part_frames(parts).drop_last() =~= part_frames(front));
        encode_utf8_valid_utf8(parts.last());
        encode_utf8_decode_utf8(parts.last());
        assert(s.cache + concatenated(front) + parts.last() =~= s.cache + concatenated(parts));
    }
}

/// A message that comes in fragments yields what it would yield in one
/// piece. Whatever texts a frame is cut into, each fragment before the last
/// yields nothing, and the last yields, and leaves the session in, what the
/// whole frame would have.
pub proof fn law_fragments_reassembled(s: Session, parts: Seq<Seq<char>>, last: Seq<char>)
    requires
        s.ws_api,
        s.connected,
        s.kind is Some,
        s.cache == Seq::<char>::empty(),
    ensures
        forall|k: int|
            0 <= k < parts.len() ==> (#[trigger] s.after_frames(
                part_frames(parts).take(k),
            )).stepped(part_frames(parts)[k]).1 == Ok::<Option<Book>, FeedError>(None),
        s.after_frames(part_frames(parts)).stepped(FrameView::LastPart(encode_utf8(last)))
            == s.stepped(FrameView::Whole(encode_utf8(concatenated(parts) + last))),
{
    assert forall|k: int| 0 <= k < parts.len() implies (#[trigger] s.after_frames(
        part_frames(parts).take(k),
    )).stepped(part_frames(parts)[k]).1 == Ok::<Option<Book>, FeedError>(None) by {
        assert(part_frames(parts).take(k) =~= part_frames(parts.take(k)));
        lemma_parts_fill_cache(s, parts.take(k));
        encode_utf8_valid_utf8(parts[k]);
    }
    lemma_parts_fill_cache(s, parts);
    encode_utf8_valid_utf8(last);
    encode_utf8_decode_utf8(last);
    encode_utf8_valid_utf8(concatenated(parts) + last);
    encode_utf8_decode_utf8(concatenated(parts) + last);
    let filled = s.after_frames(part_frames(parts));
    assert(filled.cache =~= concatenated(parts));
    assert((Session { cache: Seq::empty(), ..filled }) == s);
}

} // verus!
