//! The exchanges that are read over a persistent stream.

use crate::apitree::binance::{binance_parser, binance_read};
use crate::apitree::bitstamp::{bitstamp_parser, bitstamp_read};
use crate::apitree::btcmarkets::{btcmarkets_clear, btcmarkets_parser, btcmarkets_read};
use crate::apitree::channels::{books_view, Books};
use crate::apitree::coinjar::{coinjar_clear, coinjar_parser, coinjar_read};
use crate::apitree::indreserve::{
    event_data, indreserve_clear, indreserve_parser, indreserve_read, with_fresh_books,
};
use crate::apitree::kraken::{kraken_clear, kraken_parser, kraken_read};
use crate::apitree::wire::{reading_of, text_items, text_member, Reading};
use crate::error::FeedError;
use crate::json::json_of_text;
use crate::names::NameMap;
use crate::orderbook::{Book, Orderbook};
use crate::text::{decimal_digits, same_text, u128_to_text};
use vstd::prelude::*;

verus! {

/// The depth that a subscription asks an exchange for.
pub const SUBSCRIBED_DEPTH: u32 = 20;

/// Which decoder reads an exchange's frames.
#[derive(Clone, Copy, Debug, PartialEq, Eq, Structural)]
pub enum ParserKind {
    Binance,
    Bitstamp,
    IndependentReserve,
    BtcMarkets,
    Coinjar,
    Kraken,
}

/// What is known of an exchange's stream.
#[derive(Debug, PartialEq)]
pub struct Api {
    /// The address of the stream. Where `render_url` is set it holds one
    /// placeholder, which takes the pairs, joined by commas.
    pub endpoint: &'static str,
    /// The frames that subscribe to a pair after the stream is open; each has
    /// a placeholder for the pair and may have one for the depth.
    pub subscribe_template: Vec<&'static str>,
    /// The decoder of the exchange's frames.
    pub parse: ParserKind,
    /// Whether the pairs go into the address; no frame is then sent to
    /// subscribe.
    pub render_url: bool,
    /// The seconds between two heartbeats and what a heartbeat carries.
    pub heartbeat: Option<(u64, &'static str)>,
    /// The age in seconds at which a session must be renewed.
    pub reconnect_sec: Option<u64>,
    /// The seconds to wait before the exchange is connected to again.
    pub backoff_sec: u64,
}

/// The mathematical reading of an [`Api`].
pub struct ApiView {
    pub endpoint: Seq<char>,
    pub subscribe_template: Seq<Seq<char>>,
    pub parse: ParserKind,
    pub render_url: bool,
    pub heartbeat: Option<(u64, Seq<char>)>,
    pub reconnect_sec: Option<u64>,
    pub backoff_sec: u64,
}

impl View for Api {
    type V = ApiView;

    open spec fn view(&self) -> ApiView {
        ApiView {
            endpoint: self.endpoint@,
            subscribe_template: self.subscribe_template@.map_values(|t: &'static str| t@),
            parse: self.parse,
            render_url: self.render_url,
            heartbeat: match self.heartbeat {
                Some((secs, payload)) => Some((secs, payload@)),
                None => None,
            },
            reconnect_sec: self.reconnect_sec,
            backoff_sec: self.backoff_sec,
        }
    }
}

/// An entry for a stream that is subscribed to by frames, has no heartbeat
/// and no age limit.
pub open spec fn plain_entry(
    endpoint: Seq<char>,
    subscribe_template: Seq<Seq<char>>,
    parse: ParserKind,
) -> ApiView {
    ApiView {
        endpoint,
        subscribe_template,
        parse,
        render_url: false,
        heartbeat: None,
        reconnect_sec: None,
        backoff_sec: 0,
    }
}

/// The table of the exchanges that are read over a stream.
pub open spec fn ws_entry(name: Seq<char>) -> Option<ApiView> {
    if name == "binance"@ {
        Some(
            plain_entry(
                "wss://stream.binance.com:9443/ws"@,
                seq![r#"{{"id": 1, "method": "SUBSCRIBE", "params": ["{}@depth{}@100ms"]}}"#@],
                ParserKind::Binance,
            ),
        )
    } else if name == "binance_futures"@ {
        Some(
            plain_entry(
                "wss://fstream.binance.com:9443/ws"@,
                seq![r#"{{"id":1, "method":"SUBSCRIBE", "params": ["{}@depth{}@100ms"]}}"#@],
                ParserKind::Binance,
            ),
        )
    } else if name == "bitstamp"@ {
        Some(
            plain_entry(
                "wss://ws.bitstamp.net"@,
                seq![r#"{{"event":"bts:subscribe","data":{{"channel":"order_book_{}"}}}}"#@],
                ParserKind::Bitstamp,
            ),
        )
    } else if name == "independentreserve"@ {
        Some(
            ApiView {
                render_url: true,
                ..plain_entry(
                    "wss://websockets.independentreserve.com/orderbook/20?subscribe={}"@,
                    seq![r#"{{"Event": "Subscribe", "Data": ["{}"]}}"#@],
                    ParserKind::IndependentReserve,
                )
            },
        )
    } else if name == "btcmarkets"@ {
        Some(
            ApiView {
                backoff_sec: 4,
                ..plain_entry(
                    "wss://socket.btcmarkets.net/v2"@,
                    seq![
                        r#"{{"marketIds": ["{}"], "channels": ["orderbook", "tick"], "messageType": "subscribe"}}"#@,
                    ],
                    ParserKind::BtcMarkets,
                )
            },
        )
    } else if name == "coinjar"@ {
        Some(
            plain_entry(
                "wss://feed.exchange.coinjar.com/socket/websocket"@,
                seq![
                    r#"{{"topic": "book:{}", "event": "phx_join", "payload": {{}}, "ref": 0}}"#@,
                    r#"{{"topic": "ticker:{}", "event": "phx_join", "payload": {{}}, "ref": 0}}"#@,
                ],
                ParserKind::Coinjar,
            ),
        )
    } else if name == "kraken"@ {
        Some(
            plain_entry(
                "wss://ws.kraken.com"@,
                seq![
                    r#"{{"event":"subscribe","pair":["{}"], "subscription": {{"name":"book","depth":25}}}}"#@,
                    r#"{{"event":"subscribe","pair":["{}"], "subscription": {{"name":"ticker"}}}}"#@,
                ],
                ParserKind::Kraken,
            ),
        )
    } else {
        None
    }
}

/// An entry for a stream that is subscribed to by frames.
fn entry(endpoint: &'static str, subscribe_template: Vec<&'static str>, parse: ParserKind) -> (r:
    Api)
    ensures
        r@ == plain_entry(
            endpoint@,
            subscribe_template@.map_values(|t: &'static str| t@),
            parse,
        ),
{
    Api {
        endpoint,
        subscribe_template,
        parse,
        render_url: false,
        heartbeat: None,
        reconnect_sec: None,
        backoff_sec: 0,
    }
}

/// The entry of the exchange `name` in the table of streams.
pub fn ws_lookup(name: &str) -> (r: Option<Api>)
    ensures
        r is Some == ws_entry(name@) is Some,
        r matches Some(api) ==> ws_entry(name@) == Some(api@),
{
    if same_text(name, "binance") {
        let templates: Vec<&'static str> = vec![
            r#"{{"id": 1, "method": "SUBSCRIBE", "params": ["{}@depth{}@100ms"]}}"#,
        ];
        let api = entry("wss://stream.binance.com:9443/ws", templates, ParserKind::Binance);
        assert(api@.subscribe_template =~= ws_entry(name@)->0.subscribe_template);
        Some(api)
    } else if same_text(name, "binance_futures") {
        let templates: Vec<&'static str> = vec![
            r#"{{"id":1, "method":"SUBSCRIBE", "params": ["{}@depth{}@100ms"]}}"#,
        ];
        let api = entry("wss://fstream.binance.com:9443/ws", templates, ParserKind::Binance);
        assert(api@.subscribe_template =~= ws_entry(name@)->0.subscribe_template);
        Some(api)
    } else if same_text(name, "bitstamp") {
        let templates: Vec<&'static str> = vec![
            r#"{{"event":"bts:subscribe","data":{{"channel":"order_book_{}"}}}}"#,
        ];
        let api = entry("wss://ws.bitstamp.net", templates, ParserKind::Bitstamp);
        assert(api@.subscribe_template =~= ws_entry(name@)->0.subscribe_template);
        Some(api)
    } else if same_text(name, "independentreserve") {
        let templates: Vec<&'static str> = vec![r#"{{"Event": "Subscribe", "Data": ["{}"]}}"#];
        let mut api = entry(
            "wss://websockets.independentreserve.com/orderbook/20?subscribe={}",
            templates,
            ParserKind::IndependentReserve,
        );
        api.render_url = true;
        assert(api@.subscribe_template =~= ws_entry(name@)->0.subscribe_template);
        Some(api)
    } else if same_text(name, "btcmarkets") {
        let templates: Vec<&'static str> = vec![
            r#"{{"marketIds": ["{}"], "channels": ["orderbook", "tick"], "messageType": "subscribe"}}"#,
        ];
        let mut api = entry("wss://socket.btcmarkets.net/v2", templates, ParserKind::BtcMarkets);
        api.backoff_sec = 4;
        assert(api@.subscribe_template =~= ws_entry(name@)->0.subscribe_template);
        Some(api)
    } else if same_text(name, "coinjar") {
        let templates: Vec<&'static str> = vec![
            r#"{{"topic": "book:{}", "event": "phx_join", "payload": {{}}, "ref": 0}}"#,
            r#"{{"topic": "ticker:{}", "event": "phx_join", "payload": {{}}, "ref": 0}}"#,
        ];
        let api = entry(
            "wss://feed.exchange.coinjar.com/socket/websocket",
            templates,
            ParserKind::Coinjar,
        );
        assert(api@.subscribe_template =~= ws_entry(name@)->0.subscribe_template);
        Some(api)
    } else if same_text(name, "kraken") {
        let templates: Vec<&'static str> = vec![
            r#"{{"event":"subscribe","pair":["{}"], "subscription": {{"name":"book","depth":25}}}}"#,
            r#"{{"event":"subscribe","pair":["{}"], "subscription": {{"name":"ticker"}}}}"#,
        ];
        let api = entry("wss://ws.kraken.com", templates, ParserKind::Kraken);
        assert(api@.subscribe_template =~= ws_entry(name@)->0.subscribe_template);
        Some(api)
    } else {
        None
    }
}

/// What `formatx` makes of a template whose placeholders are filled, in
/// order, with the arguments; `None` where it rejects the template or misses
/// an argument.
pub uninterp spec fn template_rendered(template: Seq<char>, args: Seq<Seq<char>>) -> Option<
    Seq<char>,
>;

/// The characters of a text that may be missing.
pub open spec fn text_of(t: Option<String>) -> Option<Seq<char>> {
    match t {
        Some(s) => Some(s@),
        None => None,
    }
}

/// Whether every placeholder of the template is the plain `{}`. Read from
/// the left, each `{` stands before another `{`, which makes the two a
/// literal brace, or before a `}`, which makes the two a placeholder. Such
/// a template holds no width, no precision and no reference to an argument.
pub open spec fn is_plain(template: Seq<char>) -> bool
    decreases template.len(),
{
    if template.len() == 0 {
        true
    } else if template[0] == '{' {
        template.len() >= 2 && (template[1] == '{' || template[1] == '}') && is_plain(
            template.skip(2),
        )
    } else {
        is_plain(template.skip(1))
    }
}

/// Whether every placeholder of the template is the plain `{}`.
pub fn check_plain(template: &str) -> (r: bool)
    ensures
        r == is_plain(template@),
{
    let n: usize = template.unicode_len();
    let mut i: usize = 0;
    assert(template@.skip(0) =~= template@);
    while i < n
        invariant
            i <= n,
            n == template@.len(),
            is_plain(template@.skip(i as int)) == is_plain(template@),
        decreases n - i,
    {
        let ghost rest = template@.skip(i as int);
        assert(rest[0] == template@[i as int]);
        if template.get_char(i) == '{' {
            if n - i < 2 {
                return false;
            }
            let next = template.get_char(i + 1);
            assert(rest[1] == template@[i + 1]);
            if next != '{' && next != '}' {
                return false;
            }
            assert(rest.skip(2) =~= template@.skip(i + 2));
            i += 2;
        } else {
            assert(rest.skip(1) =~= template@.skip(i + 1));
            i += 1;
        }
    }
    true
}

/// The template with its placeholders filled, in order, with the arguments:
/// what `formatx` makes of it, where every placeholder is the plain `{}`.
/// `None` for any other template, and where `formatx` rejects the template
/// or misses an argument.
pub open spec fn rendered(template: Seq<char>, args: Seq<Seq<char>>) -> Option<Seq<char>> {
    if is_plain(template) {
        template_rendered(template, args)
    } else {
        None
    }
}

/// `formatx`: `Template::new` on the template, `Renderer::arg` with each
/// argument in turn, then `Renderer::finish`. The text is what
/// [`template_rendered`] names; an error of either step gives `None`. The
/// template must hold no placeholder but `{}`: `formatx` hands a width or a
/// precision on to the formatter of the standard library, which does not
/// take every number.
#[verifier::external_body]
fn fill_template(template: &str, args: &Vec<String>) -> (r: Option<String>)
    requires
        is_plain(template@),
    ensures
        text_of(r) == template_rendered(template@, args@.map_values(|s: String| s@)),
{
    let parsed = formatx::Template::new(template).ok()?;
    let mut renderer = parsed.render();
    for arg in args.iter() {
        renderer.arg(arg.as_str());
    }
    renderer.finish().ok()
}

/// The template with its placeholders filled, in order, with the arguments.
/// A template with a placeholder other than `{}` is refused.
pub fn render(template: &str, args: &Vec<String>) -> (r: Result<String, FeedError>)
    ensures
        r is Ok == rendered(template@, args@.map_values(|s: String| s@)) is Some,
        r matches Ok(s) ==> rendered(template@, args@.map_values(|s: String| s@)) == Some(s@),
        r matches Err(e) ==> e == FeedError::BadTemplate,
{
    if !check_plain(template) {
        return Err(FeedError::BadTemplate);
    }
    match fill_template(template, args) {
        Some(s) => Ok(s),
        None => Err(FeedError::BadTemplate),
    }
}

/// The frames that `templates` give for a pair and a depth: each template
/// filled with the pair and the depth in decimal digits. `None` where a
/// template cannot be filled.
pub open spec fn subscriptions(templates: Seq<Seq<char>>, pair: Seq<char>, level: u32) -> Option<
    Seq<Seq<char>>,
>
    decreases templates.len(),
{
    if templates.len() == 0 {
        Some(Seq::empty())
    } else {
        match (
            subscriptions(templates.drop_last(), pair, level),
            rendered(templates.last(), seq![pair, decimal_digits(level as nat)]),
        ) {
            (Some(front), Some(last)) => Some(front.push(last)),
            _ => None,
        }
    }
}

/// Where one template cannot be filled, the frames cannot be had.
pub proof fn lemma_subscriptions_fail(templates: Seq<Seq<char>>, pair: Seq<char>, level: u32, i: int)
    requires
        0 <= i < templates.len(),
        rendered(templates[i], seq![pair, decimal_digits(level as nat)]) is None,
    ensures
        subscriptions(templates, pair, level) is None,
    decreases templates.len(),
{
    if i < templates.len() - 1 {
        assert(templates.drop_last()[i] == templates[i]);
        lemma_subscriptions_fail(templates.drop_last(), pair, level, i);
    }
}

impl Api {
    /// The frames that subscribe to `pair` at depth `level`, one for each
    /// template.
    pub fn subscribe_text(&self, pair: &str, level: u32) -> (r: Result<Vec<String>, FeedError>)
        ensures
            r is Ok == subscriptions(self@.subscribe_template, pair@, level) is Some,
            r matches Ok(frames) ==> subscriptions(self@.subscribe_template, pair@, level) == Some(
                frames@.map_values(|s: String| s@),
            ),
            r matches Err(e) ==> e == FeedError::BadTemplate,
    {
        let ghost templates = self@.subscribe_template;
        let mut args: Vec<String> = Vec::new();
        args.push(pair.to_owned());
        args.push(u128_to_text(level as u128));
        assert(args@.map_values(|s: String| s@) =~= seq![pair@, decimal_digits(level as nat)]);
        let mut result: Vec<String> = Vec::new();
        let mut i: usize = 0;
        assert(templates.take(0) =~= Seq::<Seq<char>>::empty());
        assert(result@.map_values(|s: String| s@) =~= Seq::<Seq<char>>::empty());
        while i < self.subscribe_template.len()
            invariant
                i <= self.subscribe_template.len(),
                templates == self@.subscribe_template,
                args@.map_values(|s: String| s@) == seq![pair@, decimal_digits(level as nat)],
                subscriptions(templates.take(i as int), pair@, level) == Some(
                    result@.map_values(|s: String| s@),
                ),
            decreases self.subscribe_template.len() - i,
        {
            let ghost next = templates.take(i + 1);
            assert(next.drop_last() =~= templates.take(i as int));
            assert(next.last() == self.subscribe_template@[i as int]@);
            match render(self.subscribe_template[i], &args) {
                Ok(frame) => {
                    let ghost before = result@.map_values(|s: String| s@);
                    result.push(frame);
                    assert(result@.map_values(|s: String| s@) =~= before.push(frame@));
                },
                Err(e) => {
                    proof {
                        lemma_subscriptions_fail(templates, pair@, level, i as int);
                    }
                    return Err(e);
                },
            }
            i += 1;
        }
        assert(templates.take(i as int) =~= templates);
        Ok(result)
    }
}

/// What a frame does to the books of a parser of the given kind and what it
/// yields. The parsers of Binance and Bitstamp keep no books.
pub open spec fn parsed(kind: ParserKind, books: Books, raw: Seq<char>) -> (Books, Reading) {
    match kind {
        ParserKind::Binance => (books, binance_read(raw)),
        ParserKind::Bitstamp => (books, bitstamp_read(raw)),
        ParserKind::IndependentReserve => indreserve_read(books, raw),
        ParserKind::BtcMarkets => btcmarkets_read(books, raw),
        ParserKind::Coinjar => coinjar_read(books, raw),
        ParserKind::Kraken => kraken_read(books, raw),
    }
}

/// The reader of one session's frames: the decoder of the exchange and the
/// books that it keeps from frame to frame, one for each channel.
#[derive(Debug, PartialEq)]
pub struct Parser {
    pub kind: ParserKind,
    pub books: NameMap<Orderbook>,
}

impl Parser {
    /// A parser of the given kind that holds no book.
    pub fn new(kind: ParserKind) -> (r: Parser)
        ensures
            r.kind == kind,
            books_view(r.books) == Map::<Seq<char>, Book>::empty(),
    {
        let r = Parser { kind, books: NameMap::new() };
        assert(books_view(r.books) =~= Map::<Seq<char>, Book>::empty());
        r
    }

    /// Reads one frame: yields the book to emit, nothing for a frame that
    /// carries none, or the error of a frame that cannot be read.
    pub fn parse(&mut self, raw: &str) -> (r: Result<Option<Orderbook>, FeedError>)
        ensures
            final(self).kind == old(self).kind,
            (books_view(final(self).books), reading_of(r)) == parsed(
                old(self).kind,
                books_view(old(self).books),
                raw@,
            ),
    {
        match self.kind {
            ParserKind::Binance => binance_parser(raw),
            ParserKind::Bitstamp => bitstamp_parser(raw),
            ParserKind::IndependentReserve => indreserve_parser(&mut self.books, raw),
            ParserKind::BtcMarkets => btcmarkets_parser(&mut self.books, raw),
            ParserKind::Coinjar => coinjar_parser(&mut self.books, raw),
            ParserKind::Kraken => kraken_parser(&mut self.books, raw),
        }
    }

    /// Drops every book, as is done when a session ends.
    pub fn clear(&mut self)
        ensures
            final(self).kind == old(self).kind,
            books_view(final(self).books) == Map::<Seq<char>, Book>::empty(),
    {
        match self.kind {
            ParserKind::IndependentReserve => indreserve_clear(&mut self.books),
            ParserKind::BtcMarkets => btcmarkets_clear(&mut self.books),
            ParserKind::Coinjar => coinjar_clear(&mut self.books),
            ParserKind::Kraken => kraken_clear(&mut self.books),
            ParserKind::Binance | ParserKind::Bitstamp => {
                self.books.clear();
                assert(books_view(self.books) =~= Map::<Seq<char>, Book>::empty());
            },
        }
    }
}

impl Api {
    /// A parser for a new session with the exchange.
    pub fn parser(&self) -> (r: Parser)
        ensures
            r.kind == self.parse,
            books_view(r.books) == Map::<Seq<char>, Book>::empty(),
    {
        Parser::new(self.parse)
    }
}

/// The channels that a frame of Independent Reserve announces: those that
/// the data of a `Subscriptions` event lists. `None` for any other frame.
pub open spec fn announced(raw: Seq<char>) -> Option<Seq<Seq<char>>> {
    match json_of_text(raw) {
        Some(j) => if text_member(j, "Event"@, true) == Some("Subscriptions"@) && text_member(
            j,
            "Channel"@,
            false,
        ) is Some {
            text_items(event_data(j))
        } else {
            None
        },
        None => None,
    }
}

/// Whether a frame of Independent Reserve announces a channel that has no
/// book yet.
pub open spec fn announces_new(books: Books, raw: Seq<char>) -> bool {
    match announced(raw) {
        Some(channels) => exists|i: int|
            0 <= i < channels.len() && !books.dom().contains(#[trigger] channels[i]),
        None => false,
    }
}

/// What the books hold after the channels that had none got fresh books:
/// every channel has what it had, and a channel of the list that had
/// nothing has a fresh book.
pub proof fn lemma_with_fresh_books(books: Books, channels: Seq<Seq<char>>, c: Seq<char>)
    ensures
        with_fresh_books(books, channels).dom().contains(c) <==> (books.dom().contains(c)
            || channels.contains(c)),
        books.dom().contains(c) ==> with_fresh_books(books, channels)[c] == books[c],
        !books.dom().contains(c) && channels.contains(c) ==> with_fresh_books(books, channels)[c]
            == Book::fresh("independentreserve"@),
    decreases channels.len(),
{
    if channels.len() > 0 {
        let front = channels.drop_last();
        lemma_with_fresh_books(books, front, c);
        if channels.contains(c) {
            let i = choose|i: int| 0 <= i < channels.len() && channels[i] == c;
            if i < front.len() {
                assert(front[i] == c);
            }
        }
        if front.contains(c) {
            let i = choose|i: int| 0 <= i < front.len() && front[i] == c;
            assert(channels[i] == c);
        }
        if c == channels.last() {
            assert(channels[channels.len() - 1] == c);
        }
    }
}

/// Channels that all have books keep them: nothing changes.
pub proof fn lemma_with_known_channels(books: Books, channels: Seq<Seq<char>>)
    requires
        forall|i: int| 0 <= i < channels.len() ==> books.dom().contains(#[trigger] channels[i]),
    ensures
        with_fresh_books(books, channels) == books,
{
    let after = with_fresh_books(books, channels);
    assert forall|c: Seq<char>| #[trigger] after.dom().contains(c) == books.dom().contains(c) by {
        lemma_with_fresh_books(books, channels, c);
        if channels.contains(c) {
            let i = choose|i: int| 0 <= i < channels.len() && channels[i] == c;
            assert(books.dom().contains(channels[i]));
        }
    }
    assert forall|c: Seq<char>| books.dom().contains(c) implies #[trigger] after[c] == books[c] by {
        lemma_with_fresh_books(books, channels, c);
    }
    assert(after =~= books);
}

/// A frame that yields nothing does the same when it comes again: read a
/// second time it yields nothing and leaves the books as the first reading
/// left them.
pub proof fn law_control_frame_idempotent(kind: ParserKind, books: Books, raw: Seq<char>)
    requires
        parsed(kind, books, raw).1 == Ok::<Option<Book>, FeedError>(None),
    ensures
        parsed(kind, parsed(kind, books, raw).0, raw) == parsed(kind, books, raw),
{
    let after = parsed(kind, books, raw).0;
    match kind {
        ParserKind::IndependentReserve => {
            if announced(raw) is Some {
                let channels = announced(raw)->0;
                assert(after == with_fresh_books(books, channels));
                assert forall|i: int| 0 <= i < channels.len() implies after.dom().contains(
                    #[trigger] channels[i],
                ) by {
                    lemma_with_fresh_books(books, channels, channels[i]);
                }
                lemma_with_known_channels(after, channels);
            }
        },
        ParserKind::BtcMarkets => {
            assert(parsed(kind, after, raw).0 =~= after);
        },
        _ => {},
    }
}

/// A frame that yields nothing leaves no trace that the next frame could
/// show: whatever frame comes next yields what it would have yielded
/// without the first. The one frame of which this does not hold is left out:
/// the announcement by Independent Reserve of a channel that has no book
/// yet, whose purpose is to give the channel its book.
pub proof fn law_control_frame_unobservable(
    kind: ParserKind,
    books: Books,
    raw: Seq<char>,
    next: Seq<char>,
)
    requires
        parsed(kind, books, raw).1 == Ok::<Option<Book>, FeedError>(None),
        !(kind == ParserKind::IndependentReserve && announces_new(books, raw)),
    ensures
        parsed(kind, parsed(kind, books, raw).0, next).1 == parsed(kind, books, next).1,
{
    let after = parsed(kind, books, raw).0;
    match kind {
        ParserKind::BtcMarkets => {
            if after != books {
                let j = json_of_text(raw)->0;
                let market = text_member(j, "marketId"@, false)->0;
                assert(after == crate::apitree::channels::with_book(books, market, "btcmarkets"@));
            }
        },
        ParserKind::IndependentReserve => {
            if announced(raw) is Some {
                lemma_with_known_channels(books, announced(raw)->0);
            }
            assert(after == books);
        },
        _ => {
            assert(after == books);
        },
    }
}

/// An announcement by Independent Reserve of channels that all have books
/// yields nothing and changes nothing: each channel keeps its book with the
/// levels that it holds.
pub proof fn law_announcement_echo(books: Books, raw: Seq<char>)
    requires
        announced(raw) is Some,
        !announces_new(books, raw),
    ensures
        indreserve_read(books, raw) == (books, Ok::<Option<Book>, FeedError>(None)),
{
    lemma_with_known_channels(books, announced(raw)->0);
}

} // verus!
